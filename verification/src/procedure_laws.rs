//! What the procedures on directories ask for and come to, reply by reply.

use crate::digest;
use crate::error::{ErrorKind, PlatformError};
use crate::path_laws::{lemma_spells_path, spells_path};
use crate::root_laws::{denied, is_below, is_spelled, lemma_is_below};
use crate::scan;
use crate::windows_path;
use crate::worker_lock;
use crate::worker_lock::{
    accept_lock_wait, final_worker_component_name, normalized_worker_lock_suffix,
    prepare_worker_lock_anchor, worker_creation_start, worker_layout_lock_key,
    worker_layout_lock_name, CreationPolicyFacts, CreationStart, SuffixReply, SuffixStep,
    WorkerLockAnchor,
};
use crate::worker_ops;
use crate::worker_ops::{
    component_byte_length, open_or_create_worker_directory_at, opened_worker_directory,
    reverify_retained_created_worker_directory, validate_windows_worker_lock_anchor_identity,
    verify_existing_worker_directory, worker_directory_access, worker_directory_identity,
    worker_directory_windows_error, OpenOrCreated, RetainedCreatedWorkerDirectory, WorkerAction,
    WorkerDirectoryIdentity, WorkerDirectoryRef, WorkerMutationControl, WorkerReply, WorkerStep,
    WorkerTarget,
};
use crate::worker_root::FolderFacts;
use vstd::prelude::*;

verus! {

// ---------------------------------------------------------------------------
// Replies
// ---------------------------------------------------------------------------

/// Whether operation number `at` was done.
pub open spec fn done(replies: Seq<WorkerReply>, at: int) -> bool {
    at < replies.len() && replies[at].result is Ok
}

/// Whether operation number `at` failed, and how.
pub open spec fn failed(replies: Seq<WorkerReply>, at: int, failure: PlatformError) -> bool {
    at < replies.len() && replies[at].result == Err::<(), _>(failure)
}

/// Whether operation number `at` failed with a kind of failure.
pub open spec fn failed_with(replies: Seq<WorkerReply>, at: int, kind: ErrorKind) -> bool {
    at < replies.len() && (replies[at].result matches Err(failure) && failure.spec_kind() == kind)
}

/// Only a failure of its kind says that nothing is there, or that something is.
pub proof fn entries_are_missing_or_taken_by_kind(
    failure: &PlatformError,
    kind: ErrorKind,
    missing: bool,
    taken: bool,
)
    requires
        call_ensures(PlatformError::kind, (failure,), kind),
        call_ensures(worker_ops::missing, (failure,), missing),
        call_ensures(worker_ops::taken, (failure,), taken),
    ensures
        missing <==> kind == ErrorKind::NotFound,
        taken <==> kind == ErrorKind::AlreadyExists,
{
}

/// Whether an operation checks a directory that was there.
pub open spec fn checks(action: WorkerAction, directory: WorkerDirectoryRef, own: bool) -> bool {
    if own {
        action matches WorkerAction::VerifyCanonical { directory: looked } && looked == directory
    } else {
        action matches WorkerAction::VerifyAncestor { directory: looked, allow_create } && looked
            == directory && !allow_create
    }
}

/// A directory that was there is checked and then identified: one of the worker's own for
/// its exact rules, one above it for being safe even from new entries. Either failure is
/// the result.
pub proof fn directories_are_checked_before_they_are_identified(
    replies: &[WorkerReply],
    at: usize,
    directory: WorkerDirectoryRef,
    own: bool,
    step: WorkerStep<WorkerDirectoryIdentity>,
)
    requires
        call_ensures(verify_existing_worker_directory, (replies, at, directory, own), step),
    ensures
        step is Next <==> done(replies@, at as int) && done(replies@, at + 1),
        step matches WorkerStep::Next(identity) ==> identity == replies@[at + 1].identity,
        step matches WorkerStep::Fail(failure) ==> failed(replies@, at as int, failure) || done(
            replies@,
            at as int,
        ) && failed(replies@, at + 1, failure),
        step matches WorkerStep::Ask(action) ==> if at < replies@.len() {
            done(replies@, at as int) && at + 1 == replies@.len() && action
                == (WorkerAction::Identify { directory })
        } else {
            checks(action, directory, own)
        },
{
}

/// Whether a directory that was there was opened with operation number `at`, checked, and
/// identified.
pub open spec fn was_there(replies: Seq<WorkerReply>, at: int, opened: OpenOrCreated) -> bool {
    &&& done(replies, at) && done(replies, at + 1) && done(replies, at + 2)
    &&& opened.directory == (WorkerDirectoryRef::Opened { at: at as usize })
    &&& opened.existing == Some(replies[at + 2].identity)
    &&& opened.next == at + 3
}

/// A directory is made only where opening it said that nothing is there, and is opened
/// again only where making it said that something is there by now. One that was made has
/// no identity yet; one that was there was checked.
pub proof fn directories_are_made_only_where_nothing_is(
    replies: &[WorkerReply],
    at: usize,
    parent: WorkerDirectoryRef,
    target: WorkerTarget,
    own: bool,
    step: WorkerStep<OpenOrCreated>,
)
    requires
        call_ensures(open_or_create_worker_directory_at, (replies, at, parent, target, own), step),
        at + 5 <= usize::MAX,
    ensures
        ({
            let all = replies@;
            let none = failed_with(all, at as int, ErrorKind::NotFound);
            let raced = none && failed_with(all, at + 1, ErrorKind::AlreadyExists);
            &&& step == WorkerStep::<OpenOrCreated>::Ask(
                WorkerAction::Create { parent, target },
            ) <==> none && all.len() == at + 1
            &&& step == WorkerStep::<OpenOrCreated>::Ask(WorkerAction::Open { parent, target })
                <==> all.len() <= at || raced && all.len() == at + 2
            &&& step matches WorkerStep::Next(opened) ==> {
                ||| was_there(all, at as int, opened)
                ||| none && done(all, at + 1) && opened.existing is None && opened.directory == (
                WorkerDirectoryRef::Opened { at: (at + 1) as usize }) && opened.next == at + 2
                ||| raced && was_there(all, at + 2, opened)
            }
            &&& none && done(all, at + 1) ==> step is Next
            &&& done(all, at as int) && done(all, at + 1) && done(all, at + 2) ==> step is Next
            &&& step matches WorkerStep::Ask(action) ==> {
                ||| action == (WorkerAction::Open { parent, target })
                ||| action == (WorkerAction::Create { parent, target })
                ||| checks(action, WorkerDirectoryRef::Opened { at }, own) && all.len() == at + 1
                    && done(all, at as int)
                ||| action == (WorkerAction::Identify {
                    directory: WorkerDirectoryRef::Opened { at },
                }) && all.len() == at + 2 && done(all, at as int)
                ||| checks(action, WorkerDirectoryRef::Opened { at: (at + 2) as usize }, own)
                    && raced && all.len() == at + 3
                ||| action == (WorkerAction::Identify {
                    directory: WorkerDirectoryRef::Opened { at: (at + 2) as usize },
                }) && raced && all.len() == at + 4
            }
            &&& step matches WorkerStep::Fail(failure) ==> exists|i: int|
                at <= i < at + 5 && #[trigger] failed(all, i, failure)
            &&& forall|failure: PlatformError| #[trigger]
                failed(all, at as int, failure) && failure.spec_kind() != ErrorKind::NotFound
                    ==> step == WorkerStep::<OpenOrCreated>::Fail(failure)
        }),
{
    if let WorkerStep::Fail(failure) = step {
        let all = replies@;
        assert(failed(all, at as int, failure) || failed(all, at + 1, failure) || failed(
            all,
            at + 2,
            failure,
        ) || failed(all, at + 3, failure) || failed(all, at + 4, failure));
    }
}

/// Whether a failure is what came of one of four operations.
pub open spec fn failed_within(
    replies: Seq<WorkerReply>,
    at: int,
    failure: PlatformError,
) -> bool {
    ||| failed(replies, at, failure)
    ||| failed(replies, at + 1, failure)
    ||| failed(replies, at + 2, failure)
    ||| failed(replies, at + 3, failure)
}

/// What was made is confirmed exactly where it still has a worker's rules, is the
/// directory that it was, and both its parent and its path lead to it.
pub proof fn what_was_made_is_still_there(
    replies: &[WorkerReply],
    at: usize,
    created: &RetainedCreatedWorkerDirectory,
    step: WorkerStep<WorkerDirectoryIdentity>,
)
    requires
        call_ensures(reverify_retained_created_worker_directory, (replies, at, created), step),
    ensures
        ({
            let all = replies@;
            let identity = all[at + 1].identity;
            let known = created.identity matches Some(known) ==> known == identity;
            &&& step is Next <==> {
                &&& done(all, at as int) && done(all, at + 1) && done(all, at + 2) && done(
                    all,
                    at + 3,
                )
                &&& known
                &&& all[at + 2].identity == identity
                &&& all[at + 3].identity == identity
            }
            &&& step matches WorkerStep::Next(found) ==> found == identity
            &&& step matches WorkerStep::Ask(action) ==> {
                if all.len() <= at {
                    action == (WorkerAction::VerifyCanonical { directory: created.directory })
                } else if all.len() == at + 1 {
                    action == (WorkerAction::Identify { directory: created.directory })
                } else if all.len() == at + 2 {
                    known && action == (WorkerAction::Reopen {
                        parent: created.parent,
                        target: created.target,
                    })
                } else {
                    all.len() == at + 3 && known && all[at + 2].identity == identity && action == (
                    WorkerAction::OpenPath { target: created.target })
                }
            }
            &&& step matches WorkerStep::Fail(failure) ==> failed_within(all, at as int, failure)
                || failure.spec_kind() == ErrorKind::PermissionDenied
        }),
{
}

// ---------------------------------------------------------------------------
// What the system says of a directory
// ---------------------------------------------------------------------------

/// A change fails on purpose exactly after so many directories as was asked for, of the
/// layout or at all.
pub proof fn changes_fail_on_purpose_where_asked(
    control: WorkerMutationControl,
    created: usize,
    of_the_layout: Result<(), PlatformError>,
    at_all: Result<(), PlatformError>,
)
    requires
        call_ensures(WorkerMutationControl::fail_if_requested, (control, created), of_the_layout),
        call_ensures(
            WorkerMutationControl::fail_after_native_create_if_requested,
            (control, created),
            at_all,
        ),
    ensures
        of_the_layout is Err <==> control.fail_after_created == Some(created),
        at_all is Err <==> control.fail_after_native_created == Some(created),
        of_the_layout matches Err(failure) ==> failure.spec_kind() == ErrorKind::Other,
        at_all matches Err(failure) ==> failure.spec_kind() == ErrorKind::Other,
{
}

/// Whether a failure says that something on the way is no plain directory.
pub open spec fn leads_elsewhere(failure: PlatformError) -> bool {
    failure matches PlatformError::Native { code: Some(code), .. } && (code == 267 || code == 1920
        || code == 4390 || code == 4391 || code == 4392 || code == 4393 || code == 4394)
}

/// What is in the way of a path is refused; every other failure stays what it is. A
/// directory is open exactly where the system says so and hands it over.
pub proof fn what_is_in_the_way_is_refused(
    failure: PlatformError,
    told: PlatformError,
    status: i32,
    has_handle: bool,
    opened: Result<(), PlatformError>,
)
    requires
        call_ensures(worker_directory_windows_error, (failure,), told),
        call_ensures(opened_worker_directory, (status, has_handle, failure), opened),
    ensures
        leads_elsewhere(failure) ==> denied(Err::<(), _>(told)),
        !leads_elsewhere(failure) ==> told == failure,
        opened is Ok <==> status >= 0 && has_handle,
        status < 0 ==> opened == Err::<(), _>(told),
        status >= 0 && !has_handle ==> (opened matches Err(refusal) && refusal.spec_kind()
            == ErrorKind::InvalidData),
{
}

/// Only a plain directory has an identity: one whose attributes have the directory's bit
/// and not that of a reparse point.
pub proof fn only_plain_directories_have_identities(
    attributes: Result<u32, PlatformError>,
    file_id: Result<WorkerDirectoryIdentity, PlatformError>,
    result: Result<WorkerDirectoryIdentity, PlatformError>,
    expected: WorkerDirectoryIdentity,
    actual: WorkerDirectoryIdentity,
    accepted: Result<(), PlatformError>,
)
    requires
        call_ensures(worker_directory_identity, (attributes, file_id), result),
        call_ensures(validate_windows_worker_lock_anchor_identity, (expected, actual), accepted),
    ensures
        result is Ok <==> (attributes matches Ok(bits) && bits & 0x10 != 0 && bits & 0x400 == 0)
            && file_id is Ok,
        result is Ok ==> result == file_id,
        attributes matches Ok(bits) && (bits & 0x10 == 0 || bits & 0x400 != 0) ==> denied(result),
        accepted is Ok <==> expected == actual,
        accepted is Err ==> denied(accepted),
{
}

/// Directories are opened to pass through them and to see which they are; where they are
/// made or their rules are to be read, also for that. Names are as long as their bytes.
pub proof fn directories_are_opened_for_no_more_than_needed(
    creates: bool,
    read_security: bool,
    access: u32,
    name: &[u16],
    length: Result<u16, PlatformError>,
)
    requires
        call_ensures(worker_directory_access, (creates, read_security), access),
        call_ensures(component_byte_length, (name,), length),
    ensures
        access == if creates || read_security {
            0x0012_00a0u32
        } else {
            0x0010_00a0
        },
        length is Ok <==> name@.len() <= 32767,
        length matches Ok(length) ==> length == name@.len() + name@.len(),
{
    assert(0x20u32 | 0x80 | 0x0010_0000 | 0x0002_0000 == 0x0012_00a0 && 0x20u32 | 0x80
        | 0x0010_0000 == 0x0010_00a0) by (bit_vector);
}

// ---------------------------------------------------------------------------
// Where a layout starts
// ---------------------------------------------------------------------------

/// The making of a layout starts at the root itself, whose parent must be there; or, where
/// everything below an anchor may be missing, at the first component below the anchor,
/// which must lie above the root.
pub proof fn layouts_start_below_what_is_there<F: Fn(&[u16], &[u16]) -> i32>(
    root: &FolderFacts,
    policy: &CreationPolicyFacts,
    compare: &F,
    result: Result<CreationStart, PlatformError>,
)
    requires
        call_ensures(worker_creation_start::<F>, (root, policy, compare), result),
    ensures
        ({
            let names = scan::split_on(root.units@.skip(3), 0x5cu16);
            match *policy {
                CreationPolicyFacts::ExistingParent { allow_untrusted_parent_create } => {
                    &&& result is Ok <==> is_spelled(*root)
                    &&& result matches Ok(start) ==> start.first_creatable == names.len() - 1
                        && start.allow_untrusted_parent_create == allow_untrusted_parent_create
                },
                CreationPolicyFacts::CreateMissingFrom { anchor } => {
                    let above = scan::split_on(anchor.units@.skip(3), 0x5cu16);
                    &&& result is Ok <==> is_spelled(*root) && is_spelled(anchor) && is_below(
                        *compare,
                        root.units@,
                        anchor.units@,
                    ) && above.len() < names.len()
                    &&& result matches Ok(start) ==> start.first_creatable == above.len()
                        && !start.allow_untrusted_parent_create
                    &&& result is Err && is_spelled(*root) && is_spelled(anchor) ==> denied(result)
                },
            }
        }),
        result matches Ok(start) ==> start.root@.components == scan::split_on(
            root.units@.skip(3),
            0x5cu16,
        ) && start.root@.volume[0] == root.units@[0],
{
    lemma_spells_path(root.units@);
    if let CreationPolicyFacts::CreateMissingFrom { anchor } = *policy {
        lemma_spells_path(anchor.units@);
        if spells_path(root.units@) && spells_path(anchor.units@) {
            lemma_is_below(*compare, root.units@, anchor.units@);
        }
    }
}

// ---------------------------------------------------------------------------
// The directory that is locked
// ---------------------------------------------------------------------------

/// Operation number `k` on the way to the directory that is locked, `n` components down:
/// the volume is opened and checked, then each component is opened in the one before and
/// checked, and the last is identified. Others may add entries to all but the last, and to
/// the volume where that is allowed.
pub open spec fn operation(k: int, n: int, allowed: bool) -> WorkerAction {
    if k == 0 {
        WorkerAction::OpenVolume
    } else if k == 1 {
        WorkerAction::VerifyAncestor {
            directory: WorkerDirectoryRef::Opened { at: 0 },
            allow_create: n > 0 || allowed,
        }
    } else if k == 2 * n + 2 {
        WorkerAction::Identify { directory: WorkerDirectoryRef::Opened { at: (2 * n) as usize } }
    } else if k % 2 == 0 {
        WorkerAction::Open {
            parent: WorkerDirectoryRef::Opened { at: (k - 2) as usize },
            target: WorkerTarget::Component { index: (k / 2 - 1) as usize },
        }
    } else {
        WorkerAction::VerifyAncestor {
            directory: WorkerDirectoryRef::Opened { at: (k - 1) as usize },
            allow_create: k < 2 * n + 1,
        }
    }
}

/// Whether a step is that of operations of which number `k` is the next: the one that is
/// asked for, the first failure, or the directory once all `2 * n + 3` are done.
pub open spec fn follows(
    replies: Seq<WorkerReply>,
    k: int,
    n: int,
    allowed: bool,
    step: WorkerStep<WorkerLockAnchor>,
) -> bool {
    match step {
        WorkerStep::Ask(action) => {
            &&& replies.len() <= 2 * n + 2
            &&& action == operation(if k < replies.len() { replies.len() as int } else { k }, n, allowed)
            &&& forall|i: int| k <= i < replies.len() ==> #[trigger] done(replies, i)
        },
        WorkerStep::Fail(failure) => exists|i: int|
            k <= i <= 2 * n + 2 && #[trigger] failed(replies, i, failure) && forall|j: int|
                k <= j < i ==> #[trigger] done(replies, j),
        WorkerStep::Next(anchor) => {
            &&& forall|i: int| k <= i <= 2 * n + 2 ==> #[trigger] done(replies, i)
            &&& anchor.identity == replies[2 * n + 2].identity
            &&& anchor.directory == (WorkerDirectoryRef::Opened { at: (2 * n) as usize })
        },
    }
}

proof fn lemma_follows(replies: Seq<WorkerReply>, index: nat, n: nat, allowed: bool)
    requires
        index <= n,
        2 * n + 2 <= usize::MAX,
    ensures
        follows(
            replies,
            (2 * index + 2) as int,
            n as int,
            allowed,
            worker_lock::anchor_followed(
                replies,
                2 * index + 2,
                index,
                n,
                WorkerDirectoryRef::Opened { at: (2 * index) as usize },
            ),
        ),
    decreases n - index,
{
    let k = 2 * index + 2;
    let step = worker_lock::anchor_followed(
        replies,
        k,
        index,
        n,
        WorkerDirectoryRef::Opened { at: (2 * index) as usize },
    );
    if index >= n {
        if let WorkerStep::Fail(failure) = step {
            assert(failed(replies, k as int, failure));
        }
    } else if k >= replies.len() {
        assert(k as int % 2 == 0 && k as int / 2 - 1 == index);
    } else if replies[k as int].result is Err {
        assert(failed(replies, k as int, step->Fail_0));
    } else if k + 1 >= replies.len() {
        assert((k + 1) as int % 2 != 0);
        assert(done(replies, k as int));
    } else if replies[k as int + 1].result is Err {
        assert(failed(replies, k as int + 1, step->Fail_0));
        assert(done(replies, k as int));
    } else {
        lemma_follows(replies, index + 1, n, allowed);
        assert(done(replies, k as int) && done(replies, k as int + 1));
        let rest = k + 2;
        assert(follows(replies, rest as int, n as int, allowed, step));
        if let WorkerStep::Fail(failure) = step {
            let i = choose|i: int|
                rest <= i <= 2 * n + 2 && #[trigger] failed(replies, i, failure) && forall|j: int|
                    rest <= j < i ==> #[trigger] done(replies, j);
            assert forall|j: int| k <= j < i implies #[trigger] done(replies, j) by {}
            assert(failed(replies, i, failure));
        }
    }
}

/// The directory that is locked is reached by opening and checking the volume and each
/// component down to it, in their order. It is the last, with the identity that was seen;
/// the first failure on the way is the result.
pub proof fn locked_directories_are_reached_step_by_step(
    anchor_components: usize,
    allowed: bool,
    replies: &[WorkerReply],
    step: WorkerStep<WorkerLockAnchor>,
)
    requires
        2 * anchor_components + 2 <= usize::MAX,
        call_ensures(prepare_worker_lock_anchor, (anchor_components, allowed, replies), step),
    ensures
        follows(replies@, 0, anchor_components as int, allowed, step),
{
    let all = replies@;
    let n = anchor_components as nat;
    lemma_follows(all, 0, n, allowed);
    if all.len() > 0 && all[0].result is Err {
        assert(failed(all, 0, step->Fail_0));
    } else if all.len() > 1 && all[1].result is Err {
        assert(failed(all, 1, step->Fail_0));
        assert(done(all, 0));
    } else if all.len() > 1 {
        assert(done(all, 0) && done(all, 1));
        assert(follows(all, 2, n as int, allowed, step));
        if let WorkerStep::Fail(failure) = step {
            let i = choose|i: int|
                2 <= i <= 2 * n + 2 && #[trigger] failed(all, i, failure) && forall|j: int|
                    2 <= j < i ==> #[trigger] done(all, j);
            assert forall|j: int| 0 <= j < i implies #[trigger] done(all, j) by {}
            assert(failed(all, i, failure));
        }
    }
}

// ---------------------------------------------------------------------------
// The name of the lock
// ---------------------------------------------------------------------------

/// Whether a name is the last of a path: it has no backslash, and is the whole path or
/// stands behind one.
pub open spec fn is_last(path: Seq<u16>, name: Seq<u16>) -> bool {
    &&& !name.contains(0x5c)
    &&& name.len() <= path.len()
    &&& name == path.skip(path.len() - name.len())
    &&& name.len() < path.len() ==> path[path.len() - name.len() - 1] == 0x5c
}

proof fn lemma_is_last(path: Seq<u16>)
    ensures
        is_last(path, scan::split_on(path, 0x5cu16).last()),
    decreases path.len(),
{
    let n = scan::until(path, 0x5cu16) as int;
    scan::lemma_until(path, 0x5cu16);
    let last = scan::split_on(path, 0x5cu16).last();
    if n >= path.len() {
        assert(last == path);
        assert(path.skip(0) =~= path);
    } else {
        let rest = path.skip(n + 1);
        scan::lemma_split_nonempty(rest, 0x5cu16);
        lemma_is_last(rest);
        assert(last == scan::split_on(rest, 0x5cu16).last());
        assert(rest.skip(rest.len() - last.len()) =~= path.skip(path.len() - last.len()));
        if last.len() < path.len() {
            if last.len() < rest.len() {
                assert(path[path.len() - last.len() - 1] == rest[rest.len() - last.len() - 1]);
            } else {
                assert(path.len() - last.len() - 1 == n);
            }
        }
    }
}

/// The name of an open directory is the last of its path, and every path has one that does
/// not end with a backslash and is not empty.
pub proof fn open_directories_are_named_last(
    path: &[u16],
    result: Result<Vec<u16>, PlatformError>,
)
    requires
        call_ensures(final_worker_component_name, (path,), result),
    ensures
        result is Ok <==> path@.len() > 0 && path@.last() != 0x5c,
        result matches Ok(name) ==> name@.len() > 0 && is_last(path@, name@),
        result matches Err(refusal) ==> refusal.spec_kind() == ErrorKind::InvalidData,
{
    lemma_is_last(path@);
    let last = scan::split_on(path@, 0x5cu16).last();
    if last.len() > 0 {
        assert(last.last() == path@.last());
        assert(last[last.len() - 1] == path@.last());
        if path@.last() == 0x5c {
            assert(last.contains(0x5c));
        }
    }
}

/// Whether a component was opened and is known by a name.
pub open spec fn known_as(replies: Seq<SuffixReply>, i: int, name: Seq<u16>) -> bool {
    i < replies.len() && (replies[i] matches SuffixReply::Opened(Ok(path)) && name.len() > 0
        && is_last(path@, name))
}

/// Whether a component was not there.
pub open spec fn was_missing(replies: Seq<SuffixReply>, i: int) -> bool {
    i < replies.len() && (replies[i] matches SuffixReply::NotOpened(failure)
        && failure.spec_kind() == ErrorKind::NotFound)
}

/// Whether a path is spelled as the system knows it: the first `k` components by the names
/// under which they were opened, and the others, from the first that was missing on, as
/// they were given.
pub open spec fn is_respelled(
    logical: Seq<Seq<u16>>,
    replies: Seq<SuffixReply>,
    spelled: Seq<Seq<u16>>,
    k: int,
) -> bool {
    &&& 0 <= k <= logical.len() == spelled.len()
    &&& forall|i: int| 0 <= i < k ==> known_as(replies, i, #[trigger] spelled[i])
    &&& forall|i: int| k <= i < spelled.len() ==> #[trigger] spelled[i] == logical[i]
    &&& k < logical.len() ==> was_missing(replies, k)
}

proof fn lemma_respelled(
    logical: Seq<Seq<u16>>,
    replies: Seq<SuffixReply>,
    spelled: Seq<Seq<u16>>,
) -> (k: int)
    requires
        spelled.len() <= logical.len(),
        forall|i: int| 0 <= i < spelled.len() ==> known_as(replies, i, #[trigger] spelled[i]),
    ensures
        match worker_lock::spelled_suffix(logical, replies, spelled) {
            worker_lock::SuffixModel::Next(found) => is_respelled(logical, replies, found, k),
            worker_lock::SuffixModel::Open { index } => index == replies.len() && index
                < logical.len(),
            worker_lock::SuffixModel::Fail(failure) => k < replies.len() && k < logical.len()
                && !was_missing(replies, k) && forall|name: Seq<u16>|
                !(#[trigger] known_as(replies, k, name)),
        },
    decreases logical.len() - spelled.len(),
{
    let n = spelled.len() as int;
    if n > 0 {
        assert(known_as(replies, n - 1, spelled[n - 1]));
    }
    if n >= logical.len() {
        n
    } else if n >= replies.len() {
        n
    } else {
        match replies[n] {
            SuffixReply::Opened(Ok(path)) => {
                lemma_is_last(path@);
                let last = scan::split_on(path@, 0x5cu16).last();
                if last.len() == 0 {
                    assert forall|name: Seq<u16>| !(#[trigger] known_as(replies, n, name)) by {
                        if known_as(replies, n, name) {
                            if path@.len() > 0 {
                                assert(path@.last() == 0x5c);
                                assert(name[name.len() - 1] == path@.last());
                                assert(name.contains(0x5c));
                            }
                        }
                    }
                    n
                } else {
                    assert(known_as(replies, n, last));
                    let more = spelled.push(last);
                    assert forall|i: int| 0 <= i < more.len() implies known_as(
                        replies,
                        i,
                        #[trigger] more[i],
                    ) by {
                        if i < n {
                            assert(more[i] == spelled[i]);
                        }
                    }
                    lemma_respelled(logical, replies, more)
                }
            },
            SuffixReply::NotOpened(failure) => {
                let found = spelled + logical.skip(n);
                if worker_ops::is_missing(failure) {
                    assert forall|i: int| 0 <= i < n implies known_as(
                        replies,
                        i,
                        #[trigger] found[i],
                    ) by {
                        assert(found[i] == spelled[i]);
                    }
                }
                n
            },
            _ => n,
        }
    }
}

/// A path is spelled as the system knows it as far as it is there, and from the first
/// missing component on as it was given. Components are opened in their order.
pub proof fn paths_are_respelled_as_far_as_they_are_there(
    logical: &[Vec<u16>],
    replies: &[SuffixReply],
    step: SuffixStep,
)
    requires
        call_ensures(normalized_worker_lock_suffix, (logical, replies), step),
    ensures
        step matches SuffixStep::Next(found) ==> exists|k: int|
            is_respelled(
                windows_path::unit_views(logical@),
                replies@,
                windows_path::unit_views(found@),
                k,
            ),
        step matches SuffixStep::Open { index } ==> index == replies@.len() && index
            < logical@.len(),
        step is Fail ==> exists|k: int|
            k < replies@.len() && k < logical@.len() && !was_missing(replies@, k) && forall|
                name: Seq<u16>,
            |
                !(#[trigger] known_as(replies@, k, name)),
{
    let k = lemma_respelled(
        windows_path::unit_views(logical@),
        replies@,
        Seq::<Seq<u16>>::empty(),
    );
    if let SuffixStep::Next(found) = step {
        assert(is_respelled(
            windows_path::unit_views(logical@),
            replies@,
            windows_path::unit_views(found@),
            k,
        ));
    }
}

/// What a lock stands for is written down exactly where every component is short enough,
/// and is written alike only for the same directory and the same components below it. Its
/// first bytes are the directory's number of volume, the least significant first, and its
/// file id.
pub proof fn locks_stand_for_one_place(
    identity: &WorkerDirectoryIdentity,
    folded: &[Vec<u16>],
    key: Result<Vec<u8>, PlatformError>,
    other_identity: &WorkerDirectoryIdentity,
    other_folded: &[Vec<u16>],
    other_key: Result<Vec<u8>, PlatformError>,
)
    requires
        call_ensures(worker_layout_lock_key, (identity, folded), key),
        call_ensures(worker_layout_lock_key, (other_identity, other_folded), other_key),
    ensures
        key is Ok <==> forall|i: int|
            0 <= i < folded@.len() ==> (#[trigger] folded@[i])@.len() <= 0xffff_ffff,
        key is Ok && other_key is Ok && key->Ok_0@ == other_key->Ok_0@ ==> {
            &&& identity.volume == other_identity.volume
            &&& identity.file_id@ == other_identity.file_id@
            &&& windows_path::unit_views(folded@) == windows_path::unit_views(other_folded@)
        },
        key matches Ok(bytes) ==> {
            &&& bytes@.len() >= 24
            &&& bytes@[0] == identity.volume % 256
            &&& bytes@.subrange(8, 24) == identity.file_id@
        },
{
    let components = windows_path::unit_views(folded@);
    if key is Ok {
        assert forall|i: int| 0 <= i < folded@.len() implies (#[trigger] folded@[i])@.len()
            <= 0xffff_ffff by {
            assert(components[i].len() <= u32::MAX);
        }
        let bytes = key->Ok_0@;
        digest::lemma_little_endian_len(identity.volume as nat, 8);
        reveal_with_fuel(digest::little_endian, 2);
        assert(bytes[0] == digest::little_endian(identity.volume as nat, 8)[0]);
        assert(bytes.subrange(8, 24) =~= identity.file_id@);
    } else {
        let i = choose|i: int|
            0 <= i < components.len() && (#[trigger] components[i]).len() > u32::MAX;
        assert(folded@[i]@.len() > 0xffff_ffff);
    }
    if key is Ok && other_key is Ok && key->Ok_0@ == other_key->Ok_0@ {
        worker_lock::lock_keys_tell_places_apart(
            *identity,
            components,
            *other_identity,
            windows_path::unit_views(other_folded@),
        );
    }
}

/// Locks are the whole machine's, named after this library and a digest of sixty-four
/// digits. A lock is held exactly where the wait got it, or got it from a holder that is
/// gone.
pub proof fn locks_are_named_by_digest(
    key: &[u8],
    name: String,
    other: &[u8],
    other_name: String,
    result: u32,
    failure: PlatformError,
    accepted: Result<(), PlatformError>,
)
    requires
        call_ensures(worker_layout_lock_name, (key,), name),
        call_ensures(worker_layout_lock_name, (other,), other_name),
        call_ensures(accept_lock_wait, (result, failure), accepted),
    ensures
        name@.len() >= 26,
        name@.take(26) == "Global\\Styrn.WorkerLayout."@,
        key@ == other@ ==> name@ == other_name@,
        accepted is Ok <==> result == 0 || result == 128,
        accepted is Err ==> accepted == Err::<(), _>(failure),
{
    reveal_strlit("Global\\Styrn.WorkerLayout.");
    assert("Global\\Styrn.WorkerLayout."@.len() == 26);
    assert(name@.take(26) =~= "Global\\Styrn.WorkerLayout."@);
}

/// Which directory a directory is, is its volume and its number there; on Unix the number
/// is followed by zeros.
pub proof fn directories_are_told_apart_by_volume_and_number(
    volume: u64,
    file_id: [u8; 16],
    windows: WorkerDirectoryIdentity,
    device: u64,
    inode: u64,
    unix: WorkerDirectoryIdentity,
    same: bool,
)
    requires
        call_ensures(WorkerDirectoryIdentity::from_windows, (volume, file_id), windows),
        call_ensures(WorkerDirectoryIdentity::from_unix, (device, inode), unix),
        call_ensures(WorkerDirectoryIdentity::same_as, (&windows, &unix), same),
    ensures
        windows.volume == volume && windows.file_id@ == file_id@,
        unix.volume == device,
        forall|i: int| 8 <= i < 16 ==> unix.file_id@[i] == 0,
        same ==> volume == device && file_id@ == unix.file_id@,
        volume == device && file_id@ == unix.file_id@ ==> same,
{
    assert(windows.file_id@ == unix.file_id@ ==> windows.file_id =~= unix.file_id);
}

} // verus!
