//! Where the making of a layout starts, and the lock under which it is made: two
//! callers that mean the same root wait for the same lock.

use crate::digest;
use crate::digest::{push_little_endian, sha256_text};
use crate::error;
use crate::error::{invalid_data, permission_denied, PlatformError};
use crate::scan;
use crate::scan::split_units;
use crate::text::{chars_of, string_of};
use crate::windows_path;
use crate::windows_path::{WindowsWorkerPath, BACKSLASH};
use crate::worker_ops;
use crate::worker_ops::{
    ask, missing, WorkerAction, WorkerDirectoryIdentity, WorkerDirectoryRef, WorkerReply,
    WorkerStep, WorkerTarget,
};
use crate::worker_root::FolderFacts;
use vstd::prelude::*;
use vstd::slice::slice_to_vec;

verus! {

// ---------------------------------------------------------------------------
// Where a layout starts
// ---------------------------------------------------------------------------

/// What may be missing above a root: nothing, or everything below an anchor.
#[derive(Debug)]
pub enum CreationPolicyFacts {
    ExistingParent { allow_untrusted_parent_create: bool },
    CreateMissingFrom { anchor: FolderFacts },
}

/// The root, the first of its components that may be made, and whether others
/// may make entries where that one is made.
#[derive(Debug)]
pub struct CreationStart {
    pub root: WindowsWorkerPath,
    pub first_creatable: usize,
    pub allow_untrusted_parent_create: bool,
}

/// Finds where the making of a layout starts.
pub fn worker_creation_start<F: Fn(&[u16], &[u16]) -> i32>(
    root: &FolderFacts,
    policy: &CreationPolicyFacts,
    compare: &F,
) -> (result: Result<CreationStart, PlatformError>)
    requires
        windows_path::comparer(*compare),
    ensures
        ({
            let path = windows_path::parsed(root.units@);
            let unnormalized = error::malformed("worker directory path is not normalized");
            if !windows_path::normal_path(root.units@, windows_path::optional_units(root.full)) {
                result == Err::<CreationStart, PlatformError>(unnormalized)
            } else {
                match *policy {
                    CreationPolicyFacts::ExistingParent { allow_untrusted_parent_create } => {
                        result matches Ok(start) && start.root@ == path && start.first_creatable + 1
                            == path.components.len() && start.allow_untrusted_parent_create
                            == allow_untrusted_parent_create
                    },
                    CreationPolicyFacts::CreateMissingFrom { anchor } => {
                        let above = windows_path::parsed(anchor.units@);
                        if !windows_path::normal_path(
                            anchor.units@,
                            windows_path::optional_units(anchor.full),
                        ) {
                            result == Err::<CreationStart, PlatformError>(unnormalized)
                        } else if !windows_path::path_below(*compare, path, above)
                            || path.components.len() == above.components.len() {
                            result == Err::<CreationStart, PlatformError>(
                                error::denied(
                                    "worker standard root escapes its native profile anchor",
                                ),
                            )
                        } else {
                            result matches Ok(start) && start.root@ == path && start.first_creatable
                                == above.components.len() && !start.allow_untrusted_parent_create
                        }
                    },
                }
            }
        }),
        result matches Ok(start) ==> start.first_creatable < start.root@.components.len(),
{
    let path = match WindowsWorkerPath::parse(&root.units, &root.full) {
        Ok(path) => path,
        Err(failure) => {
            return Err(failure);
        },
    };
    let count: usize = path.components.len();
    assert(count == path@.components.len());
    match policy {
        CreationPolicyFacts::ExistingParent { allow_untrusted_parent_create } => {
            proof {
                scan::lemma_split_nonempty(root.units@.skip(3), BACKSLASH);
            }
            Ok(
                CreationStart {
                    root: path,
                    first_creatable: count - 1,
                    allow_untrusted_parent_create: *allow_untrusted_parent_create,
                },
            )
        },
        CreationPolicyFacts::CreateMissingFrom { anchor } => {
            let above = match WindowsWorkerPath::parse(&anchor.units, &anchor.full) {
                Ok(above) => above,
                Err(failure) => {
                    return Err(failure);
                },
            };
            let anchored: usize = above.components.len();
            assert(anchored == above@.components.len());
            if !path.has_component_prefix(&above, compare) || count == anchored {
                return Err(
                    permission_denied("worker standard root escapes its native profile anchor"),
                );
            }
            Ok(
                CreationStart {
                    root: path,
                    first_creatable: anchored,
                    allow_untrusted_parent_create: false,
                },
            )
        },
    }
}

// ---------------------------------------------------------------------------
// The directory that is locked
// ---------------------------------------------------------------------------

/// The directory that is locked: which open directory it is, and its identity.
#[derive(Clone, Copy, Debug)]
pub struct WorkerLockAnchor {
    pub directory: WorkerDirectoryRef,
    pub identity: WorkerDirectoryIdentity,
}

/// Following the path to the directory that is locked, from component number
/// `index` on. Others may make entries in the directories on the way, but not in
/// the last one.
pub open spec fn anchor_followed(
    replies: Seq<WorkerReply>,
    at: nat,
    index: nat,
    anchor_components: nat,
    directory: WorkerDirectoryRef,
) -> WorkerStep<WorkerLockAnchor>
    decreases anchor_components - index,
{
    if index >= anchor_components {
        match worker_ops::asked(replies, at, WorkerAction::Identify { directory }) {
            WorkerStep::Ask(action) => WorkerStep::Ask(action),
            WorkerStep::Fail(failure) => WorkerStep::Fail(failure),
            WorkerStep::Next(identity) => WorkerStep::Next(
                WorkerLockAnchor { directory, identity },
            ),
        }
    } else {
        match worker_ops::asked(
            replies,
            at,
            WorkerAction::Open {
                parent: directory,
                target: WorkerTarget::Component { index: index as usize },
            },
        ) {
            WorkerStep::Ask(action) => WorkerStep::Ask(action),
            WorkerStep::Fail(failure) => WorkerStep::Fail(failure),
            WorkerStep::Next(_) => {
                let opened = WorkerDirectoryRef::Opened { at: at as usize };
                match worker_ops::asked(
                    replies,
                    at + 1,
                    WorkerAction::VerifyAncestor {
                        directory: opened,
                        allow_create: index + 1 < anchor_components,
                    },
                ) {
                    WorkerStep::Ask(action) => WorkerStep::Ask(action),
                    WorkerStep::Fail(failure) => WorkerStep::Fail(failure),
                    WorkerStep::Next(_) => anchor_followed(
                        replies,
                        at + 2,
                        index + 1,
                        anchor_components,
                        opened,
                    ),
                }
            },
        }
    }
}

/// Finding the directory that is locked, from the root of its volume on.
pub open spec fn anchor_found(
    replies: Seq<WorkerReply>,
    anchor_components: nat,
    allow_untrusted_parent_create: bool,
) -> WorkerStep<WorkerLockAnchor> {
    let volume = WorkerDirectoryRef::Opened { at: 0 };
    match worker_ops::asked(replies, 0, WorkerAction::OpenVolume) {
        WorkerStep::Ask(action) => WorkerStep::Ask(action),
        WorkerStep::Fail(failure) => WorkerStep::Fail(failure),
        WorkerStep::Next(_) => match worker_ops::asked(
            replies,
            1,
            WorkerAction::VerifyAncestor {
                directory: volume,
                allow_create: anchor_components != 0 || allow_untrusted_parent_create,
            },
        ) {
            WorkerStep::Ask(action) => WorkerStep::Ask(action),
            WorkerStep::Fail(failure) => WorkerStep::Fail(failure),
            WorkerStep::Next(_) => anchor_followed(replies, 2, 0, anchor_components, volume),
        },
    }
}

/// Finds the directory that is locked: given the replies to all operations so
/// far, the next operation, or the directory.
pub fn prepare_worker_lock_anchor(
    anchor_components: usize,
    allow_untrusted_parent_create: bool,
    replies: &[WorkerReply],
) -> (step: WorkerStep<WorkerLockAnchor>)
    ensures
        step == anchor_found(replies@, anchor_components as nat, allow_untrusted_parent_create),
{
    match ask(replies, 0, WorkerAction::OpenVolume) {
        WorkerStep::Ask(action) => {
            return WorkerStep::Ask(action);
        },
        WorkerStep::Fail(failure) => {
            return WorkerStep::Fail(failure);
        },
        WorkerStep::Next(_) => {},
    }
    let mut directory = WorkerDirectoryRef::Opened { at: 0 };
    match ask(
        replies,
        1,
        WorkerAction::VerifyAncestor {
            directory,
            allow_create: anchor_components != 0 || allow_untrusted_parent_create,
        },
    ) {
        WorkerStep::Ask(action) => {
            return WorkerStep::Ask(action);
        },
        WorkerStep::Fail(failure) => {
            return WorkerStep::Fail(failure);
        },
        WorkerStep::Next(_) => {},
    }
    let mut at: usize = 2;
    let ghost whole = anchor_found(
        replies@,
        anchor_components as nat,
        allow_untrusted_parent_create,
    );
    for index in 0..anchor_components
        invariant
            at <= replies@.len(),
            whole == anchor_found(
                replies@,
                anchor_components as nat,
                allow_untrusted_parent_create,
            ),
            whole == anchor_followed(
                replies@,
                at as nat,
                index as nat,
                anchor_components as nat,
                directory,
            ),
    {
        match ask(
            replies,
            at,
            WorkerAction::Open { parent: directory, target: WorkerTarget::Component { index } },
        ) {
            WorkerStep::Ask(action) => {
                return WorkerStep::Ask(action);
            },
            WorkerStep::Fail(failure) => {
                return WorkerStep::Fail(failure);
            },
            WorkerStep::Next(_) => {},
        }
        let opened = WorkerDirectoryRef::Opened { at };
        match ask(
            replies,
            at + 1,
            WorkerAction::VerifyAncestor {
                directory: opened,
                allow_create: index + 1 < anchor_components,
            },
        ) {
            WorkerStep::Ask(action) => {
                return WorkerStep::Ask(action);
            },
            WorkerStep::Fail(failure) => {
                return WorkerStep::Fail(failure);
            },
            WorkerStep::Next(_) => {},
        }
        directory = opened;
        at = at + 2;
    }
    match ask(replies, at, WorkerAction::Identify { directory }) {
        WorkerStep::Ask(action) => WorkerStep::Ask(action),
        WorkerStep::Fail(failure) => WorkerStep::Fail(failure),
        WorkerStep::Next(identity) => WorkerStep::Next(WorkerLockAnchor { directory, identity }),
    }
}

// ---------------------------------------------------------------------------
// The name of the lock
// ---------------------------------------------------------------------------

/// What came of opening the next component of a path: nothing is there, or the
/// full path under which the system knows what was opened.
#[derive(Debug)]
pub enum SuffixReply {
    NotOpened(PlatformError),
    Opened(Result<Vec<u16>, PlatformError>),
}

/// The last component of a full path.
pub open spec fn final_component(path: Seq<u16>) -> Result<Seq<u16>, PlatformError> {
    let last = scan::split_on(path, BACKSLASH).last();
    if last.len() == 0 {
        Err(error::malformed("Windows returned no final worker path component"))
    } else {
        Ok(last)
    }
}

/// What an exact name is.
pub open spec fn name_model(name: Result<Vec<u16>, PlatformError>) -> Result<
    Seq<u16>,
    PlatformError,
> {
    match name {
        Ok(name) => Ok(name@),
        Err(failure) => Err(failure),
    }
}

/// Finds the last component of a full path.
pub fn final_worker_component_name(path: &[u16]) -> (result: Result<Vec<u16>, PlatformError>)
    ensures
        name_model(result) == final_component(path@),
{
    proof {
        scan::lemma_split_nonempty(path@, BACKSLASH);
    }
    let mut pieces = split_units(path, BACKSLASH);
    let last: usize = pieces.len() - 1;
    assert(pieces@[last as int]@ == scan::split_on(path@, BACKSLASH).last());
    let name = pieces.remove(last);
    if name.len() == 0 {
        return Err(invalid_data("Windows returned no final worker path component"));
    }
    Ok(name)
}

/// How far spelling a path's components as the system does got: it asks to open
/// the component with this number in the directory that was opened last, failed,
/// or has the components.
#[derive(Debug)]
pub enum SuffixStep {
    Open { index: usize },
    Fail(PlatformError),
    Next(Vec<Vec<u16>>),
}

/// What a step says.
pub enum SuffixModel {
    Open { index: nat },
    Fail(PlatformError),
    Next(Seq<Seq<u16>>),
}

/// What a step says.
pub open spec fn suffix_model(step: SuffixStep) -> SuffixModel {
    match step {
        SuffixStep::Open { index } => SuffixModel::Open { index: index as nat },
        SuffixStep::Fail(failure) => SuffixModel::Fail(failure),
        SuffixStep::Next(components) => SuffixModel::Next(
            windows_path::unit_views(components@),
        ),
    }
}

/// The components of a path as the system spells them: as far as they are there
/// by their exact names, and from the first missing one on as they were given.
pub open spec fn spelled_suffix(
    logical: Seq<Seq<u16>>,
    replies: Seq<SuffixReply>,
    spelled: Seq<Seq<u16>>,
) -> SuffixModel
    decreases logical.len() - spelled.len(),
{
    if spelled.len() >= logical.len() {
        SuffixModel::Next(spelled)
    } else if spelled.len() >= replies.len() {
        SuffixModel::Open { index: spelled.len() }
    } else {
        match replies[spelled.len() as int] {
            SuffixReply::NotOpened(failure) => if worker_ops::is_missing(failure) {
                SuffixModel::Next(spelled + logical.skip(spelled.len() as int))
            } else {
                SuffixModel::Fail(failure)
            },
            SuffixReply::Opened(Err(failure)) => SuffixModel::Fail(failure),
            SuffixReply::Opened(Ok(path)) => match final_component(path@) {
                Err(failure) => SuffixModel::Fail(failure),
                Ok(name) => spelled_suffix(logical, replies, spelled.push(name)),
            },
        }
    }
}

/// Spells the components of a path as the system does: given what came of
/// opening each so far, the next one to open, or the components.
pub fn normalized_worker_lock_suffix(logical: &[Vec<u16>], replies: &[SuffixReply]) -> (step:
    SuffixStep)
    ensures
        suffix_model(step) == spelled_suffix(
            windows_path::unit_views(logical@),
            replies@,
            Seq::<Seq<u16>>::empty(),
        ),
{
    let ghost wanted = windows_path::unit_views(logical@);
    let ghost whole = spelled_suffix(wanted, replies@, Seq::<Seq<u16>>::empty());
    let mut spelled: Vec<Vec<u16>> = Vec::new();
    assert(windows_path::unit_views(spelled@) =~= Seq::<Seq<u16>>::empty());
    let mut existing = true;
    for index in 0..logical.len()
        invariant
            wanted == windows_path::unit_views(logical@),
            whole == spelled_suffix(wanted, replies@, Seq::<Seq<u16>>::empty()),
            spelled@.len() == index,
            existing ==> whole == spelled_suffix(
                wanted,
                replies@,
                windows_path::unit_views(spelled@),
            ),
            !existing ==> whole == SuffixModel::Next(
                windows_path::unit_views(spelled@) + wanted.skip(index as int),
            ),
    {
        let ghost before = windows_path::unit_views(spelled@);
        if existing {
            if index >= replies.len() {
                return SuffixStep::Open { index };
            }
            match &replies[index] {
                SuffixReply::NotOpened(failure) => {
                    if !missing(failure) {
                        return SuffixStep::Fail(*failure);
                    }
                    existing = false;
                },
                SuffixReply::Opened(Err(failure)) => {
                    return SuffixStep::Fail(*failure);
                },
                SuffixReply::Opened(Ok(path)) => {
                    match final_worker_component_name(path) {
                        Err(failure) => {
                            return SuffixStep::Fail(failure);
                        },
                        Ok(name) => {
                            let ghost named = name@;
                            spelled.push(name);
                            assert(windows_path::unit_views(spelled@) =~= before.push(named));
                        },
                    }
                },
            }
        }
        if !existing {
            let component = slice_to_vec(logical[index].as_slice());
            assert(component@ == wanted[index as int]);
            let ghost named = component@;
            spelled.push(component);
            assert(windows_path::unit_views(spelled@) =~= before.push(named));
            assert(before.push(named) + wanted.skip(index + 1) =~= before + wanted.skip(
                index as int,
            ));
        }
    }
    assert(windows_path::unit_views(spelled@) + wanted.skip(wanted.len() as int)
        =~= windows_path::unit_views(spelled@));
    SuffixStep::Next(spelled)
}

/// The bytes of code units.
pub open spec fn unit_bytes(units: Seq<u16>) -> Seq<u8>
    decreases units.len(),
{
    if units.len() == 0 {
        seq![]
    } else {
        unit_bytes(units.drop_last()) + digest::little_endian(units.last() as nat, 2)
    }
}

/// The bytes of components: each with its length.
pub open spec fn component_bytes(components: Seq<Seq<u16>>) -> Seq<u8>
    decreases components.len(),
{
    if components.len() == 0 {
        seq![]
    } else {
        component_bytes(components.drop_last()) + digest::little_endian(
            components.last().len(),
            4,
        ) + unit_bytes(components.last())
    }
}

/// What a lock stands for: a directory, and components below it.
pub open spec fn lock_key(identity: WorkerDirectoryIdentity, components: Seq<Seq<u16>>) -> Seq<u8> {
    digest::little_endian(identity.volume as nat, 8) + identity.file_id@ + component_bytes(
        components,
    )
}

/// Whether a length can be written down.
pub open spec fn fits(components: Seq<Seq<u16>>) -> bool {
    forall|i: int| 0 <= i < components.len() ==> (#[trigger] components[i]).len() <= u32::MAX
}

/// Writes down what a lock stands for. `folded` are the components below the
/// locked directory, as the system spells them, in upper case.
pub fn worker_layout_lock_key(identity: &WorkerDirectoryIdentity, folded: &[Vec<u16>]) -> (result:
    Result<Vec<u8>, PlatformError>)
    ensures
        ({
            let components = windows_path::unit_views(folded@);
            match result {
                Ok(bytes) => fits(components) && bytes@ == lock_key(*identity, components),
                Err(failure) => !fits(components) && failure == error::malformed(
                    "worker root path is too long for a coordination lock",
                ),
            }
        }),
{
    let ghost components = windows_path::unit_views(folded@);
    let mut bytes: Vec<u8> = Vec::new();
    push_little_endian(&mut bytes, identity.volume, 8);
    for i in 0..16usize
        invariant
            bytes@ == digest::little_endian(identity.volume as nat, 8) + identity.file_id@.take(
                i as int,
            ),
    {
        let ghost before = bytes@;
        bytes.push(identity.file_id[i]);
        assert(bytes@ =~= digest::little_endian(identity.volume as nat, 8)
            + identity.file_id@.take(i + 1));
    }
    assert(identity.file_id@.take(16) =~= identity.file_id@);
    let ghost head = bytes@;
    assert(head + component_bytes(components.take(0)) =~= head);
    for i in 0..folded.len()
        invariant
            components == windows_path::unit_views(folded@),
            forall|k: int| 0 <= k < i ==> (#[trigger] components[k]).len() <= u32::MAX,
            bytes@ == head + component_bytes(components.take(i as int)),
    {
        let component = &folded[i];
        let length: usize = component.len();
        assert(component@ == components[i as int]);
        if length as u64 > u32::MAX as u64 {
            assert(!fits(components));
            return Err(invalid_data("worker root path is too long for a coordination lock"));
        }
        let ghost done = component_bytes(components.take(i as int));
        push_little_endian(&mut bytes, length as u64, 4);
        let ghost counted = digest::little_endian(length as nat, 4);
        for k in 0..length
            invariant
                length == component@.len(),
                bytes@ == head + done + counted + unit_bytes(component@.take(k as int)),
        {
            let ghost before = bytes@;
            push_little_endian(&mut bytes, component[k] as u64, 2);
            assert(component@.take(k + 1).drop_last() =~= component@.take(k as int));
            assert(bytes@ =~= head + done + counted + unit_bytes(component@.take(k + 1)));
        }
        assert(component@.take(length as int) =~= component@);
        assert(components.take(i + 1).drop_last() =~= components.take(i as int));
        assert(bytes@ =~= head + component_bytes(components.take(i + 1)));
    }
    assert(components.take(components.len() as int) =~= components);
    Ok(bytes)
}

/// The name of a lock.
pub open spec fn lock_name(key: Seq<u8>) -> Seq<char> {
    "Global\\Styrn.WorkerLayout."@ + digest::hex_of(digest::sha256_of(key))
}

/// Names a lock after what it stands for.
pub fn worker_layout_lock_name(key: &[u8]) -> (name: String)
    ensures
        name@ == lock_name(key@),
{
    let mut chars = chars_of("Global\\Styrn.WorkerLayout.");
    let text = sha256_text(key);
    let mut rest = chars_of(text.as_str());
    chars.append(&mut rest);
    string_of(&chars)
}

/// The result of a wait that got what it waited for.
pub const WAIT_OBJECT_0: u32 = 0;

/// The result of a wait that got what its holder left behind.
pub const WAIT_ABANDONED_0: u32 = 0x80;

/// Whether a wait for the lock got it. `failure` is what the system reports last.
pub fn accept_lock_wait(result: u32, failure: PlatformError) -> (accepted: Result<
    (),
    PlatformError,
>)
    ensures
        accepted == if result == WAIT_OBJECT_0 || result == WAIT_ABANDONED_0 {
            Ok::<(), PlatformError>(())
        } else {
            Err(failure)
        },
{
    if result == WAIT_OBJECT_0 || result == WAIT_ABANDONED_0 {
        Ok(())
    } else {
        Err(failure)
    }
}

// ---------------------------------------------------------------------------
// Laws
// ---------------------------------------------------------------------------

proof fn lemma_unit_bytes_len(units: Seq<u16>)
    ensures
        unit_bytes(units).len() == 2 * units.len(),
    decreases units.len(),
{
    if units.len() > 0 {
        lemma_unit_bytes_len(units.drop_last());
        digest::lemma_little_endian_len(units.last() as nat, 2);
    }
}

proof fn lemma_unit_bytes_injective(a: Seq<u16>, b: Seq<u16>)
    requires
        a.len() == b.len(),
        unit_bytes(a) == unit_bytes(b),
    ensures
        a == b,
    decreases a.len(),
{
    if a.len() > 0 {
        let left = unit_bytes(a);
        let right = unit_bytes(b);
        let cut = 2 * (a.len() - 1);
        lemma_unit_bytes_len(a.drop_last());
        lemma_unit_bytes_len(b.drop_last());
        assert(left.take(cut) =~= unit_bytes(a.drop_last()));
        assert(right.take(cut) =~= unit_bytes(b.drop_last()));
        assert(left.skip(cut) =~= digest::little_endian(a.last() as nat, 2));
        assert(right.skip(cut) =~= digest::little_endian(b.last() as nat, 2));
        lemma_unit_bytes_injective(a.drop_last(), b.drop_last());
        assert(digest::byte_range(2) == 0x10000) by {
            reveal_with_fuel(digest::byte_range, 3);
        }
        digest::little_endian_is_injective(a.last() as nat, b.last() as nat, 2);
        assert(a =~= a.drop_last().push(a.last()));
        assert(b =~= b.drop_last().push(b.last()));
    } else {
        assert(a =~= b);
    }
}

/// The bytes of a component.
spec fn one_component(component: Seq<u16>) -> Seq<u8> {
    digest::little_endian(component.len(), 4) + unit_bytes(component)
}

proof fn lemma_first_component(components: Seq<Seq<u16>>)
    requires
        components.len() > 0,
    ensures
        component_bytes(components) == one_component(components[0]) + component_bytes(
            components.drop_first(),
        ),
    decreases components.len(),
{
    if components.len() == 1 {
        assert(components.drop_last() =~= Seq::<Seq<u16>>::empty());
        assert(components.drop_first() =~= Seq::<Seq<u16>>::empty());
        assert(component_bytes(components) =~= one_component(components[0]) + component_bytes(
            components.drop_first(),
        ));
    } else {
        lemma_first_component(components.drop_last());
        assert(components.drop_last().drop_first() =~= components.drop_first().drop_last());
        assert(component_bytes(components) =~= one_component(components[0]) + component_bytes(
            components.drop_first(),
        ));
    }
}

proof fn lemma_components_injective(a: Seq<Seq<u16>>, b: Seq<Seq<u16>>)
    requires
        fits(a),
        fits(b),
        component_bytes(a) == component_bytes(b),
    ensures
        a == b,
    decreases a.len() + b.len(),
{
    if a.len() > 0 {
        lemma_first_component(a);
        digest::lemma_little_endian_len(a[0].len(), 4);
        lemma_unit_bytes_len(a[0]);
    }
    if b.len() > 0 {
        lemma_first_component(b);
        digest::lemma_little_endian_len(b[0].len(), 4);
        lemma_unit_bytes_len(b[0]);
    }
    if a.len() > 0 && b.len() > 0 {
        let bytes = component_bytes(a);
        assert(bytes.take(4) =~= digest::little_endian(a[0].len(), 4));
        assert(bytes.take(4) =~= digest::little_endian(b[0].len(), 4));
        assert(digest::byte_range(4) == 0x1_0000_0000) by {
            reveal_with_fuel(digest::byte_range, 5);
        }
        digest::little_endian_is_injective(a[0].len(), b[0].len(), 4);
        let cut = (4 + 2 * a[0].len()) as int;
        assert(bytes.subrange(4, cut) =~= unit_bytes(a[0]));
        assert(bytes.subrange(4, cut) =~= unit_bytes(b[0]));
        lemma_unit_bytes_injective(a[0], b[0]);
        assert(bytes.skip(cut) =~= component_bytes(a.drop_first()));
        assert(bytes.skip(cut) =~= component_bytes(b.drop_first()));
        assert(fits(a.drop_first())) by {
            assert forall|i: int| 0 <= i < a.drop_first().len() implies (#[trigger] a.drop_first()[i]).len()
                <= u32::MAX by {
                assert(a[i + 1].len() <= u32::MAX);
            }
        }
        assert(fits(b.drop_first())) by {
            assert forall|i: int| 0 <= i < b.drop_first().len() implies (#[trigger] b.drop_first()[i]).len()
                <= u32::MAX by {
                assert(b[i + 1].len() <= u32::MAX);
            }
        }
        lemma_components_injective(a.drop_first(), b.drop_first());
        assert(a =~= seq![a[0]] + a.drop_first());
        assert(b =~= seq![b[0]] + b.drop_first());
    } else {
        assert(a =~= b);
    }
}

/// A lock stands for one place only: what it is named after is the same only for
/// the same directory and the same components below it.
pub proof fn lock_keys_tell_places_apart(
    first: WorkerDirectoryIdentity,
    first_components: Seq<Seq<u16>>,
    second: WorkerDirectoryIdentity,
    second_components: Seq<Seq<u16>>,
)
    requires
        fits(first_components),
        fits(second_components),
        lock_key(first, first_components) == lock_key(second, second_components),
    ensures
        first.volume == second.volume,
        first.file_id@ == second.file_id@,
        first_components == second_components,
{
    let key = lock_key(first, first_components);
    digest::lemma_little_endian_len(first.volume as nat, 8);
    digest::lemma_little_endian_len(second.volume as nat, 8);
    assert(first.file_id@.len() == 16 && second.file_id@.len() == 16);
    assert(key.take(8) =~= digest::little_endian(first.volume as nat, 8));
    assert(key.take(8) =~= digest::little_endian(second.volume as nat, 8));
    assert(digest::byte_range(8) == 0x1_0000_0000_0000_0000) by {
        reveal_with_fuel(digest::byte_range, 9);
    }
    digest::little_endian_is_injective(first.volume as nat, second.volume as nat, 8);
    assert(key.subrange(8, 24) =~= first.file_id@);
    assert(key.subrange(8, 24) =~= second.file_id@);
    assert(key.skip(24) =~= component_bytes(first_components));
    assert(key.skip(24) =~= component_bytes(second_components));
    lemma_components_injective(first_components, second_components);
}

proof fn lemma_suffix_length(
    logical: Seq<Seq<u16>>,
    replies: Seq<SuffixReply>,
    spelled: Seq<Seq<u16>>,
)
    requires
        spelled.len() <= logical.len(),
    ensures
        spelled_suffix(logical, replies, spelled) matches SuffixModel::Next(components)
            ==> components.len() == logical.len(),
    decreases logical.len() - spelled.len(),
{
    if spelled.len() < logical.len() && spelled.len() < replies.len() {
        if let SuffixReply::Opened(Ok(path)) = replies[spelled.len() as int] {
            if let Ok(name) = final_component(path@) {
                lemma_suffix_length(logical, replies, spelled.push(name));
            }
        }
    }
}

/// Spelling a path as the system does keeps the number of its components.
pub proof fn spelling_keeps_the_depth(logical: Seq<Seq<u16>>, replies: Seq<SuffixReply>)
    ensures
        spelled_suffix(logical, replies, Seq::<Seq<u16>>::empty()) matches SuffixModel::Next(
            components,
        ) ==> components.len() == logical.len(),
{
    lemma_suffix_length(logical, replies, Seq::<Seq<u16>>::empty());
}

} // verus!
