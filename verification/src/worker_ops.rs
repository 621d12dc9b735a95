//! The operations on directories that laying out a worker consists of. Each is
//! asked for by an action and answered by a reply; what to ask next follows from
//! the replies so far.

use crate::acl::SYNCHRONIZE;
use crate::descriptor::{FILE_ATTRIBUTE_DIRECTORY, FILE_ATTRIBUTE_REPARSE_POINT};
use crate::error;
use crate::error::{invalid_data, permission_denied, ErrorKind, PlatformError};
use crate::layout::{PathModel, WorkerPath};
use vstd::bytes::spec_u64_to_le_bytes;
use vstd::prelude::*;

verus! {

// ---------------------------------------------------------------------------
// Identities and observations
// ---------------------------------------------------------------------------

/// Which directory a directory is, whatever its path.
#[derive(Clone, Copy, Debug, PartialEq, Eq)]
pub struct WorkerDirectoryIdentity {
    pub volume: u64,
    pub file_id: [u8; 16],
}

/// `u64::to_ne_bytes`: the bytes of a number in the order of the machine, the
/// least or the most significant first.
#[verifier::external_body]
fn machine_bytes(number: u64) -> (bytes: [u8; 8])
    ensures
        bytes@ == spec_u64_to_le_bytes(number) || bytes@ == spec_u64_to_le_bytes(number).reverse(),
{
    number.to_ne_bytes()
}

/// The bytes of a number in either order.
pub open spec fn bytes_of(number: u64, bytes: Seq<u8>) -> bool {
    bytes == spec_u64_to_le_bytes(number) || bytes == spec_u64_to_le_bytes(number).reverse()
}

impl WorkerDirectoryIdentity {
    /// The identity of a directory on Unix: its device, and its inode followed
    /// by zeros.
    pub fn from_unix(device: u64, inode: u64) -> (identity: Self)
        ensures
            identity.volume == device,
            bytes_of(inode, identity.file_id@.take(8)),
            forall|i: int| 8 <= i < 16 ==> identity.file_id@[i] == 0,
    {
        let bytes = machine_bytes(inode);
        let file_id: [u8; 16] = [
            bytes[0], bytes[1], bytes[2], bytes[3], bytes[4], bytes[5], bytes[6], bytes[7], 0, 0, 0,
            0, 0, 0, 0, 0,
        ];
        assert(file_id@.take(8) =~= bytes@);
        WorkerDirectoryIdentity { volume: device, file_id }
    }

    /// The identity of a directory on Windows: its volume and its file id.
    pub fn from_windows(volume: u64, file_id: [u8; 16]) -> (identity: Self)
        ensures
            identity == (WorkerDirectoryIdentity { volume, file_id }),
    {
        WorkerDirectoryIdentity { volume, file_id }
    }

    /// Whether two identities are those of one directory.
    pub fn same_as(&self, other: &WorkerDirectoryIdentity) -> (same: bool)
        ensures
            same == (*self == *other),
    {
        if self.volume != other.volume {
            return false;
        }
        for i in 0..16
            invariant
                forall|k: int| 0 <= k < i ==> self.file_id@[k] == other.file_id@[k],
        {
            if self.file_id[i] != other.file_id[i] {
                return false;
            }
        }
        assert(self.file_id =~= other.file_id);
        true
    }
}

/// Whether a directory was made or was there.
#[derive(Clone, Copy, Debug, PartialEq, Eq, Structural)]
pub enum WorkerDirectoryNodeDisposition {
    Created,
    Existing,
}

/// A directory that was made or found.
#[derive(Debug)]
pub struct WorkerDirectoryNodeObservation {
    path: WorkerPath,
    disposition: WorkerDirectoryNodeDisposition,
    identity: WorkerDirectoryIdentity,
}

/// What was observed of a directory.
#[verifier::ext_equal]
pub struct ObservationModel {
    pub path: PathModel,
    pub disposition: WorkerDirectoryNodeDisposition,
    pub identity: WorkerDirectoryIdentity,
}

impl View for WorkerDirectoryNodeObservation {
    type V = ObservationModel;

    closed spec fn view(&self) -> ObservationModel {
        ObservationModel {
            path: self.path@,
            disposition: self.disposition,
            identity: self.identity,
        }
    }
}

impl WorkerDirectoryNodeObservation {
    /// The observation.
    pub fn new(
        path: WorkerPath,
        disposition: WorkerDirectoryNodeDisposition,
        identity: WorkerDirectoryIdentity,
    ) -> (observation: Self)
        ensures
            observation@ == (ObservationModel { path: path@, disposition, identity }),
    {
        WorkerDirectoryNodeObservation { path, disposition, identity }
    }

    /// Where the directory stands.
    pub fn path(&self) -> (path: &WorkerPath)
        ensures
            path@ == self@.path,
    {
        &self.path
    }

    /// Whether the directory was made or was there.
    pub fn disposition(&self) -> (disposition: WorkerDirectoryNodeDisposition)
        ensures
            disposition == self@.disposition,
    {
        self.disposition
    }

    /// Which directory it is.
    pub fn identity(&self) -> (identity: WorkerDirectoryIdentity)
        ensures
            identity == self@.identity,
    {
        self.identity
    }
}

// ---------------------------------------------------------------------------
// Actions and replies
// ---------------------------------------------------------------------------

/// A directory that an operation is about, by its place in the layout: one of
/// the components of the root's path, or one of the directories in the root.
#[derive(Clone, Copy, Debug, PartialEq, Eq, Structural)]
pub enum WorkerTarget {
    Component { index: usize },
    Child { ordinal: usize },
}

/// A directory that is open: the one that is locked, or the one that the
/// operation with this number opened or made.
#[derive(Clone, Copy, Debug, PartialEq, Eq, Structural)]
pub enum WorkerDirectoryRef {
    Anchor,
    Opened { at: usize },
}

/// An operation on a directory.
#[derive(Clone, Copy, Debug, PartialEq, Eq, Structural)]
pub enum WorkerAction {
    /// Open the root of the volume.
    OpenVolume,
    /// Open an entry of an open directory, so that its access rules can be read.
    Open { parent: WorkerDirectoryRef, target: WorkerTarget },
    /// Open an entry of an open directory, to see which directory it is.
    Reopen { parent: WorkerDirectoryRef, target: WorkerTarget },
    /// Open a directory by its path, to see which directory it is.
    OpenPath { target: WorkerTarget },
    /// Check that a directory has the owner and the access rules of a worker's.
    VerifyCanonical { directory: WorkerDirectoryRef },
    /// Check that only trusted principals can change a directory, apart from
    /// making entries in it where that is allowed.
    VerifyAncestor { directory: WorkerDirectoryRef, allow_create: bool },
    /// See which directory an open directory is.
    Identify { directory: WorkerDirectoryRef },
    /// Make an entry of an open directory.
    Create { parent: WorkerDirectoryRef, target: WorkerTarget },
}

/// What came of an operation. The identity is that of the directory that was
/// opened or identified.
#[derive(Clone, Copy, Debug)]
pub struct WorkerReply {
    pub result: Result<(), PlatformError>,
    pub identity: WorkerDirectoryIdentity,
}

/// How far a procedure got: it asks for an operation, failed, or has a result.
#[derive(Clone, Copy, Debug)]
pub enum WorkerStep<T> {
    Ask(WorkerAction),
    Fail(PlatformError),
    Next(T),
}

/// The result of operation number `at`, or that it is still to be asked for.
pub open spec fn asked(replies: Seq<WorkerReply>, at: nat, action: WorkerAction) -> WorkerStep<
    WorkerDirectoryIdentity,
> {
    if at >= replies.len() {
        WorkerStep::Ask(action)
    } else {
        match replies[at as int].result {
            Ok(()) => WorkerStep::Next(replies[at as int].identity),
            Err(failure) => WorkerStep::Fail(failure),
        }
    }
}

/// Looks up the result of an operation, or asks for it.
pub fn ask(replies: &[WorkerReply], at: usize, action: WorkerAction) -> (step: WorkerStep<
    WorkerDirectoryIdentity,
>)
    ensures
        step == asked(replies@, at as nat, action),
        !(step is Ask) ==> at < replies@.len(),
        replies@.len() <= usize::MAX,
{
    if at >= replies.len() {
        return WorkerStep::Ask(action);
    }
    match replies[at].result {
        Ok(()) => WorkerStep::Next(replies[at].identity),
        Err(failure) => WorkerStep::Fail(failure),
    }
}

/// Whether a failure says that nothing is there.
pub open spec fn is_missing(failure: PlatformError) -> bool {
    failure.spec_kind() == ErrorKind::NotFound
}

/// Whether a failure says that something is there already.
pub open spec fn is_taken(failure: PlatformError) -> bool {
    failure.spec_kind() == ErrorKind::AlreadyExists
}

/// Whether a failure says that nothing is there.
pub fn missing(failure: &PlatformError) -> (holds: bool)
    ensures
        holds == is_missing(*failure),
{
    match failure.kind() {
        ErrorKind::NotFound => true,
        _ => false,
    }
}

/// Whether a failure says that something is there already.
pub fn taken(failure: &PlatformError) -> (holds: bool)
    ensures
        holds == is_taken(*failure),
{
    match failure.kind() {
        ErrorKind::AlreadyExists => true,
        _ => false,
    }
}

// ---------------------------------------------------------------------------
// Opening or making a directory
// ---------------------------------------------------------------------------

/// How an existing directory is checked: one of the worker's own for its exact
/// rules, one above it for being trusted.
pub open spec fn existing_check(directory: WorkerDirectoryRef, canonical: bool) -> WorkerAction {
    if canonical {
        WorkerAction::VerifyCanonical { directory }
    } else {
        WorkerAction::VerifyAncestor { directory, allow_create: false }
    }
}

/// The identity of an existing directory that passes its check.
pub open spec fn checked_existing(
    replies: Seq<WorkerReply>,
    at: nat,
    directory: WorkerDirectoryRef,
    canonical: bool,
) -> WorkerStep<WorkerDirectoryIdentity> {
    match asked(replies, at, existing_check(directory, canonical)) {
        WorkerStep::Ask(action) => WorkerStep::Ask(action),
        WorkerStep::Fail(failure) => WorkerStep::Fail(failure),
        WorkerStep::Next(_) => asked(replies, at + 1, WorkerAction::Identify { directory }),
    }
}

/// Checks an existing directory.
pub fn verify_existing_worker_directory(
    replies: &[WorkerReply],
    at: usize,
    directory: WorkerDirectoryRef,
    must_be_canonical: bool,
) -> (step: WorkerStep<WorkerDirectoryIdentity>)
    ensures
        step == checked_existing(replies@, at as nat, directory, must_be_canonical),
        step is Next ==> at + 1 < replies@.len(),
{
    let check = if must_be_canonical {
        WorkerAction::VerifyCanonical { directory }
    } else {
        WorkerAction::VerifyAncestor { directory, allow_create: false }
    };
    match ask(replies, at, check) {
        WorkerStep::Ask(action) => WorkerStep::Ask(action),
        WorkerStep::Fail(failure) => WorkerStep::Fail(failure),
        WorkerStep::Next(_) => ask(replies, at + 1, WorkerAction::Identify { directory }),
    }
}

/// A directory that was opened or made: which open directory it is, its identity
/// where it was there, and the number of the next operation.
#[derive(Clone, Copy, Debug)]
pub struct OpenOrCreated {
    pub directory: WorkerDirectoryRef,
    pub existing: Option<WorkerDirectoryIdentity>,
    pub next: usize,
}

/// Opening a directory or, where nothing is there, making it. Where someone else
/// made it in between, it is opened after all. What was there is checked.
pub open spec fn opened_or_created(
    replies: Seq<WorkerReply>,
    at: nat,
    parent: WorkerDirectoryRef,
    target: WorkerTarget,
    canonical: bool,
) -> WorkerStep<OpenOrCreated> {
    match asked(replies, at, WorkerAction::Open { parent, target }) {
        WorkerStep::Ask(action) => WorkerStep::Ask(action),
        WorkerStep::Next(_) => {
            let directory = WorkerDirectoryRef::Opened { at: at as usize };
            match checked_existing(replies, at + 1, directory, canonical) {
                WorkerStep::Ask(action) => WorkerStep::Ask(action),
                WorkerStep::Fail(failure) => WorkerStep::Fail(failure),
                WorkerStep::Next(identity) => WorkerStep::Next(
                    OpenOrCreated {
                        directory,
                        existing: Some(identity),
                        next: (at + 3) as usize,
                    },
                ),
            }
        },
        WorkerStep::Fail(failure) => if !is_missing(failure) {
            WorkerStep::Fail(failure)
        } else {
            match asked(replies, at + 1, WorkerAction::Create { parent, target }) {
                WorkerStep::Ask(action) => WorkerStep::Ask(action),
                WorkerStep::Next(_) => WorkerStep::Next(
                    OpenOrCreated {
                        directory: WorkerDirectoryRef::Opened { at: (at + 1) as usize },
                        existing: None,
                        next: (at + 2) as usize,
                    },
                ),
                WorkerStep::Fail(failure) => if !is_taken(failure) {
                    WorkerStep::Fail(failure)
                } else {
                    match asked(replies, at + 2, WorkerAction::Open { parent, target }) {
                        WorkerStep::Ask(action) => WorkerStep::Ask(action),
                        WorkerStep::Fail(failure) => WorkerStep::Fail(failure),
                        WorkerStep::Next(_) => {
                            let directory = WorkerDirectoryRef::Opened { at: (at + 2) as usize };
                            match checked_existing(replies, at + 3, directory, canonical) {
                                WorkerStep::Ask(action) => WorkerStep::Ask(action),
                                WorkerStep::Fail(failure) => WorkerStep::Fail(failure),
                                WorkerStep::Next(identity) => WorkerStep::Next(
                                    OpenOrCreated {
                                        directory,
                                        existing: Some(identity),
                                        next: (at + 5) as usize,
                                    },
                                ),
                            }
                        },
                    }
                },
            }
        },
    }
}

/// Opens a directory or makes it.
pub fn open_or_create_worker_directory_at(
    replies: &[WorkerReply],
    at: usize,
    parent: WorkerDirectoryRef,
    target: WorkerTarget,
    existing_must_be_canonical: bool,
) -> (step: WorkerStep<OpenOrCreated>)
    ensures
        step == opened_or_created(
            replies@,
            at as nat,
            parent,
            target,
            existing_must_be_canonical,
        ),
        step matches WorkerStep::Next(opened) ==> at < opened.next <= replies@.len(),
{
    match ask(replies, at, WorkerAction::Open { parent, target }) {
        WorkerStep::Ask(action) => WorkerStep::Ask(action),
        WorkerStep::Next(_) => {
            let directory = WorkerDirectoryRef::Opened { at };
            match verify_existing_worker_directory(
                replies,
                at + 1,
                directory,
                existing_must_be_canonical,
            ) {
                WorkerStep::Ask(action) => WorkerStep::Ask(action),
                WorkerStep::Fail(failure) => WorkerStep::Fail(failure),
                WorkerStep::Next(identity) => WorkerStep::Next(
                    OpenOrCreated { directory, existing: Some(identity), next: at + 3 },
                ),
            }
        },
        WorkerStep::Fail(failure) => {
            if !missing(&failure) {
                return WorkerStep::Fail(failure);
            }
            match ask(replies, at + 1, WorkerAction::Create { parent, target }) {
                WorkerStep::Ask(action) => WorkerStep::Ask(action),
                WorkerStep::Next(_) => WorkerStep::Next(
                    OpenOrCreated {
                        directory: WorkerDirectoryRef::Opened { at: at + 1 },
                        existing: None,
                        next: at + 2,
                    },
                ),
                WorkerStep::Fail(failure) => {
                    if !taken(&failure) {
                        return WorkerStep::Fail(failure);
                    }
                    match ask(replies, at + 2, WorkerAction::Open { parent, target }) {
                        WorkerStep::Ask(action) => WorkerStep::Ask(action),
                        WorkerStep::Fail(failure) => WorkerStep::Fail(failure),
                        WorkerStep::Next(_) => {
                            let directory = WorkerDirectoryRef::Opened { at: at + 2 };
                            match verify_existing_worker_directory(
                                replies,
                                at + 3,
                                directory,
                                existing_must_be_canonical,
                            ) {
                                WorkerStep::Ask(action) => WorkerStep::Ask(action),
                                WorkerStep::Fail(failure) => WorkerStep::Fail(failure),
                                WorkerStep::Next(identity) => WorkerStep::Next(
                                    OpenOrCreated {
                                        directory,
                                        existing: Some(identity),
                                        next: at + 5,
                                    },
                                ),
                            }
                        },
                    }
                },
            }
        },
    }
}

// ---------------------------------------------------------------------------
// What was made
// ---------------------------------------------------------------------------

/// A directory that was made, and must be accounted for: where it was meant to
/// be, which open directory it is, and its identity once that is known.
#[derive(Clone, Copy, Debug)]
pub struct RetainedCreatedWorkerDirectory {
    pub target: WorkerTarget,
    pub parent: WorkerDirectoryRef,
    pub directory: WorkerDirectoryRef,
    pub identity: Option<WorkerDirectoryIdentity>,
}

/// Whether a directory that was made is still what and where it was: it has a
/// worker's rules and its own identity, and both its parent and its path lead to
/// it.
pub open spec fn reverified(
    replies: Seq<WorkerReply>,
    at: nat,
    created: RetainedCreatedWorkerDirectory,
) -> WorkerStep<WorkerDirectoryIdentity> {
    let directory = created.directory;
    match asked(replies, at, WorkerAction::VerifyCanonical { directory }) {
        WorkerStep::Ask(action) => WorkerStep::Ask(action),
        WorkerStep::Fail(failure) => WorkerStep::Fail(failure),
        WorkerStep::Next(_) => match asked(
            replies,
            at + 1,
            WorkerAction::Identify { directory },
        ) {
            WorkerStep::Ask(action) => WorkerStep::Ask(action),
            WorkerStep::Fail(failure) => WorkerStep::Fail(failure),
            WorkerStep::Next(identity) => if created.identity is Some && created.identity
                != Some(identity) {
                WorkerStep::Fail(
                    error::denied("retained native-created worker directory identity changed"),
                )
            } else {
                match asked(
                    replies,
                    at + 2,
                    WorkerAction::Reopen { parent: created.parent, target: created.target },
                ) {
                    WorkerStep::Ask(action) => WorkerStep::Ask(action),
                    WorkerStep::Fail(failure) => WorkerStep::Fail(failure),
                    WorkerStep::Next(relative) => if relative != identity {
                        WorkerStep::Fail(
                            error::denied(
                                "native-created worker directory descriptor-relative path changed",
                            ),
                        )
                    } else {
                        match asked(
                            replies,
                            at + 3,
                            WorkerAction::OpenPath { target: created.target },
                        ) {
                            WorkerStep::Ask(action) => WorkerStep::Ask(action),
                            WorkerStep::Fail(failure) => WorkerStep::Fail(failure),
                            WorkerStep::Next(absolute) => if absolute != identity {
                                WorkerStep::Fail(
                                    error::denied(
                                        "native-created worker directory absolute path changed",
                                    ),
                                )
                            } else {
                                WorkerStep::Next(identity)
                            },
                        }
                    },
                }
            },
        },
    }
}

/// The number of operations of a complete look at what was made.
pub const REVERIFY_OPERATIONS: usize = 4;

/// Looks whether a directory that was made is still what and where it was.
pub fn reverify_retained_created_worker_directory(
    replies: &[WorkerReply],
    at: usize,
    created: &RetainedCreatedWorkerDirectory,
) -> (step: WorkerStep<WorkerDirectoryIdentity>)
    ensures
        step == reverified(replies@, at as nat, *created),
        step is Next ==> at + REVERIFY_OPERATIONS <= replies@.len() <= usize::MAX,
{
    let directory = created.directory;
    match ask(replies, at, WorkerAction::VerifyCanonical { directory }) {
        WorkerStep::Ask(action) => {
            return WorkerStep::Ask(action);
        },
        WorkerStep::Fail(failure) => {
            return WorkerStep::Fail(failure);
        },
        WorkerStep::Next(_) => {},
    }
    let identity = match ask(replies, at + 1, WorkerAction::Identify { directory }) {
        WorkerStep::Ask(action) => {
            return WorkerStep::Ask(action);
        },
        WorkerStep::Fail(failure) => {
            return WorkerStep::Fail(failure);
        },
        WorkerStep::Next(identity) => identity,
    };
    match created.identity {
        Some(expected) => {
            if !expected.same_as(&identity) {
                return WorkerStep::Fail(
                    permission_denied("retained native-created worker directory identity changed"),
                );
            }
        },
        None => {},
    }
    let relative = match ask(
        replies,
        at + 2,
        WorkerAction::Reopen { parent: created.parent, target: created.target },
    ) {
        WorkerStep::Ask(action) => {
            return WorkerStep::Ask(action);
        },
        WorkerStep::Fail(failure) => {
            return WorkerStep::Fail(failure);
        },
        WorkerStep::Next(relative) => relative,
    };
    if !relative.same_as(&identity) {
        return WorkerStep::Fail(
            permission_denied("native-created worker directory descriptor-relative path changed"),
        );
    }
    let absolute = match ask(replies, at + 3, WorkerAction::OpenPath { target: created.target }) {
        WorkerStep::Ask(action) => {
            return WorkerStep::Ask(action);
        },
        WorkerStep::Fail(failure) => {
            return WorkerStep::Fail(failure);
        },
        WorkerStep::Next(absolute) => absolute,
    };
    if !absolute.same_as(&identity) {
        return WorkerStep::Fail(
            permission_denied("native-created worker directory absolute path changed"),
        );
    }
    WorkerStep::Next(identity)
}

// ---------------------------------------------------------------------------
// Failing on purpose
// ---------------------------------------------------------------------------

/// Where a change is made to fail, to see that what was made is accounted for.
#[derive(Clone, Copy, Debug, PartialEq, Eq, Structural)]
pub struct WorkerMutationControl {
    pub fail_after_created: Option<usize>,
    pub fail_after_native_created: Option<usize>,
}

/// The failure on purpose after making so many directories of the layout.
pub open spec fn canonical_injection(control: WorkerMutationControl, created: nat) -> Option<
    PlatformError,
> {
    if control.fail_after_created is Some && control.fail_after_created->0 == created {
        Some(
            PlatformError::Counted {
                kind: ErrorKind::Other,
                before: "injected worker mutation failure after ",
                count: control.fail_after_created->0,
                after: " created canonical nodes",
            },
        )
    } else {
        None
    }
}

/// The failure on purpose after making so many directories at all.
pub open spec fn native_injection(control: WorkerMutationControl, created: nat) -> Option<
    PlatformError,
> {
    if control.fail_after_native_created is Some && control.fail_after_native_created->0
        == created {
        Some(
            PlatformError::Counted {
                kind: ErrorKind::Other,
                before: "injected failure after retaining ",
                count: control.fail_after_native_created->0,
                after: " native worker directory creations",
            },
        )
    } else {
        None
    }
}

/// The verdict that an optional failure stands for.
pub open spec fn unless(failure: Option<PlatformError>) -> Result<(), PlatformError> {
    match failure {
        Some(failure) => Err(failure),
        None => Ok(()),
    }
}

impl WorkerMutationControl {
    /// The control.
    pub fn new(
        fail_after_created: Option<usize>,
        fail_after_native_created: Option<usize>,
    ) -> (control: Self)
        ensures
            control == (WorkerMutationControl { fail_after_created, fail_after_native_created }),
    {
        WorkerMutationControl { fail_after_created, fail_after_native_created }
    }

    /// Fails where that is asked for after so many directories of the layout.
    pub fn fail_if_requested(self, created: usize) -> (result: Result<(), PlatformError>)
        ensures
            result == unless(canonical_injection(self, created as nat)),
    {
        match self.fail_after_created {
            Some(count) => if count == created {
                Err(
                    PlatformError::Counted {
                        kind: ErrorKind::Other,
                        before: "injected worker mutation failure after ",
                        count,
                        after: " created canonical nodes",
                    },
                )
            } else {
                Ok(())
            },
            None => Ok(()),
        }
    }

    /// Fails where that is asked for after so many directories at all.
    pub fn fail_after_native_create_if_requested(self, created: usize) -> (result: Result<
        (),
        PlatformError,
    >)
        ensures
            result == unless(native_injection(self, created as nat)),
    {
        match self.fail_after_native_created {
            Some(count) => if count == created {
                Err(
                    PlatformError::Counted {
                        kind: ErrorKind::Other,
                        before: "injected failure after retaining ",
                        count,
                        after: " native worker directory creations",
                    },
                )
            } else {
                Ok(())
            },
            None => Ok(()),
        }
    }
}

// ---------------------------------------------------------------------------
// Native errors and identities
// ---------------------------------------------------------------------------

/// The status codes that say that a component is no plain directory.
pub open spec fn is_obstacle(code: i32) -> bool {
    code == 267 || code == 1920 || 4390 <= code <= 4394
}

/// What a failure to open a directory means: a component that is no plain
/// directory is a refusal.
pub fn worker_directory_windows_error(failure: PlatformError) -> (result: PlatformError)
    ensures
        result == match error::native_code(failure) {
            Some(code) => if is_obstacle(code) {
                error::denied(
                    "worker layout ancestry contains a reparse point or non-directory component",
                )
            } else {
                failure
            },
            None => failure,
        },
{
    match failure.raw_os_error() {
        Some(code) => if code == 267 || code == 1920 || (4390 <= code && code <= 4394) {
            permission_denied(
                "worker layout ancestry contains a reparse point or non-directory component",
            )
        } else {
            failure
        },
        None => failure,
    }
}

/// The number of bytes of a component's name, where Windows can take it.
pub fn component_byte_length(name: &[u16]) -> (result: Result<u16, PlatformError>)
    ensures
        match result {
            Ok(length) => length == 2 * name@.len(),
            Err(refusal) => 2 * name@.len() > u16::MAX && refusal == error::malformed(
                "worker directory component is too long",
            ),
        },
{
    if name.len() > 0x7fff {
        return Err(invalid_data("worker directory component is too long"));
    }
    Ok((name.len() * 2) as u16)
}

/// The right to pass through a directory.
pub const FILE_TRAVERSE: u32 = 0x20;

/// The right to read a file's attributes.
pub const FILE_READ_ATTRIBUTES: u32 = 0x80;

/// The right to read a file's owner and access rules.
pub const READ_CONTROL: u32 = 0x0002_0000;

/// The rights that a directory is opened with: those to pass through it and,
/// where it is made or its rules are to be read, the right to read them.
pub fn worker_directory_access(creates: bool, read_security: bool) -> (access: u32)
    ensures
        access == if creates || read_security {
            FILE_TRAVERSE | FILE_READ_ATTRIBUTES | SYNCHRONIZE | READ_CONTROL
        } else {
            FILE_TRAVERSE | FILE_READ_ATTRIBUTES | SYNCHRONIZE
        },
{
    if creates || read_security {
        FILE_TRAVERSE | FILE_READ_ATTRIBUTES | SYNCHRONIZE | READ_CONTROL
    } else {
        FILE_TRAVERSE | FILE_READ_ATTRIBUTES | SYNCHRONIZE
    }
}

/// What came of opening a directory: the status, negative for a failure, whether
/// a handle came with it, and the failure that the status stands for.
pub fn opened_worker_directory(status: i32, has_handle: bool, failure: PlatformError) -> (result:
    Result<(), PlatformError>)
    ensures
        status >= 0 && has_handle ==> result is Ok,
        status >= 0 && !has_handle ==> result == Err::<(), _>(
            error::malformed("Windows opened a null worker directory handle"),
        ),
        status < 0 ==> result == Err::<(), _>(
            match error::native_code(failure) {
                Some(code) => if is_obstacle(code) {
                    error::denied(
                        "worker layout ancestry contains a reparse point or non-directory component",
                    )
                } else {
                    failure
                },
                None => failure,
            },
        ),
{
    if status < 0 {
        return Err(worker_directory_windows_error(failure));
    }
    if !has_handle {
        return Err(invalid_data("Windows opened a null worker directory handle"));
    }
    Ok(())
}

/// The identity of an open directory from its attributes and its file id: what
/// is no plain directory has none.
pub fn worker_directory_identity(
    attributes: Result<u32, PlatformError>,
    file_id: Result<WorkerDirectoryIdentity, PlatformError>,
) -> (result: Result<WorkerDirectoryIdentity, PlatformError>)
    ensures
        result == match attributes {
            Err(failure) => Err(failure),
            Ok(attributes) => if attributes & FILE_ATTRIBUTE_REPARSE_POINT != 0 || attributes
                & FILE_ATTRIBUTE_DIRECTORY == 0 {
                Err(error::denied("worker layout path is a reparse point or non-directory"))
            } else {
                file_id
            },
        },
{
    match attributes {
        Err(failure) => Err(failure),
        Ok(attributes) => if attributes & FILE_ATTRIBUTE_REPARSE_POINT != 0 || attributes
            & FILE_ATTRIBUTE_DIRECTORY == 0 {
            Err(permission_denied("worker layout path is a reparse point or non-directory"))
        } else {
            file_id
        },
    }
}

/// The directory that a lock stands for must be the one that was locked.
pub open spec fn same_anchor(
    expected: WorkerDirectoryIdentity,
    actual: WorkerDirectoryIdentity,
) -> Result<(), PlatformError> {
    if actual == expected {
        Ok(())
    } else {
        Err(
            error::denied("Windows worker lock anchor identity changed before filesystem mutation"),
        )
    }
}

/// Accepts the directory that a lock stands for: it must be the one that was
/// locked.
pub fn validate_windows_worker_lock_anchor_identity(
    expected: WorkerDirectoryIdentity,
    actual: WorkerDirectoryIdentity,
) -> (result: Result<(), PlatformError>)
    ensures
        result == same_anchor(expected, actual),
{
    if actual.same_as(&expected) {
        Ok(())
    } else {
        Err(
            permission_denied(
                "Windows worker lock anchor identity changed before filesystem mutation",
            ),
        )
    }
}

} // verus!
