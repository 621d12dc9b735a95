//! Publishing files and directories: what is written is checked before it is
//! named, never replaces anything, and is checked again under its name.

use crate::acl;
use crate::acl::{acl_sddl, AclKind};
use crate::descriptor;
use crate::descriptor::{
    require_kind, PathFacts, SecurityFacts, FILE_ATTRIBUTE_DIRECTORY, FILE_ATTRIBUTE_REPARSE_POINT,
};
use crate::digest;
use crate::digest::{push_little_endian, sha256_text};
use crate::error;
use crate::error::{invalid_data, permission_denied, ErrorKind, PlatformError};
use crate::layout;
use crate::layout::{PathModel, WorkerPath};
use crate::store;
use crate::store::{
    is_test_owner, judge_rules, kind_of_directory, kind_of_manifest, kind_of_private_file,
    verify_manifest_ancestors, verify_private_file_security, ManifestOwner, ObjectFacts,
};
use crate::text;
use crate::text::same_bytes;
use vstd::prelude::*;
use vstd::utf8::*;

verus! {

// ---------------------------------------------------------------------------
// Which file a handle is
// ---------------------------------------------------------------------------

/// Which file a file is, by two numbers of its file system.
#[derive(Clone, Copy, Debug, PartialEq, Eq, Structural)]
pub struct PrivateFileIdentity {
    pub first: u64,
    pub second: u64,
}

/// What binds a record to a file.
pub open spec fn identity_bytes(identity: PrivateFileIdentity) -> Seq<u8> {
    encode_utf8("styrn.private-file-identity.v1\0"@) + digest::little_endian(
        identity.first as nat,
        8,
    ) + digest::little_endian(identity.second as nat, 8)
}

impl PrivateFileIdentity {
    /// The identity with these numbers.
    pub fn new(first: u64, second: u64) -> (identity: Self)
        ensures
            identity == (PrivateFileIdentity { first, second }),
    {
        PrivateFileIdentity { first, second }
    }

    /// The digest that binds a record to the file.
    pub fn binding_sha256(self) -> (text: String)
        ensures
            text@ == digest::hex_of(digest::sha256_of(identity_bytes(self))),
    {
        let mut bytes: Vec<u8> = Vec::new();
        let label = "styrn.private-file-identity.v1\0".as_bytes();
        for i in 0..label.len()
            invariant
                bytes@ == label@.take(i as int),
        {
            bytes.push(label[i]);
            assert(bytes@ =~= label@.take(i + 1));
        }
        assert(label@.take(label@.len() as int) =~= label@);
        push_little_endian(&mut bytes, self.first, 8);
        push_little_endian(&mut bytes, self.second, 8);
        sha256_text(&bytes)
    }
}

/// The same bytes bind a record only to the same file.
pub proof fn bindings_tell_files_apart(first: PrivateFileIdentity, second: PrivateFileIdentity)
    requires
        identity_bytes(first) == identity_bytes(second),
    ensures
        first == second,
{
    let label = encode_utf8("styrn.private-file-identity.v1\0"@);
    let start = label.len() as int;
    let bytes = identity_bytes(first);
    digest::lemma_little_endian_len(first.first as nat, 8);
    digest::lemma_little_endian_len(first.second as nat, 8);
    digest::lemma_little_endian_len(second.first as nat, 8);
    digest::lemma_little_endian_len(second.second as nat, 8);
    assert(bytes.subrange(start, start + 8) =~= digest::little_endian(first.first as nat, 8));
    assert(bytes.subrange(start, start + 8) =~= digest::little_endian(second.first as nat, 8));
    assert(bytes.skip(start + 8) =~= digest::little_endian(first.second as nat, 8));
    assert(bytes.skip(start + 8) =~= digest::little_endian(second.second as nat, 8));
    assert(digest::byte_range(8) == 0x1_0000_0000_0000_0000) by {
        reveal_with_fuel(digest::byte_range, 9);
    }
    digest::little_endian_is_injective(first.first as nat, second.first as nat, 8);
    digest::little_endian_is_injective(first.second as nat, second.second as nat, 8);
}

/// What the system reports of an open file.
#[derive(Clone, Copy, Debug)]
pub struct FileInformation {
    pub attributes: u32,
    pub volume_serial_number: u32,
    pub file_index_high: u32,
    pub file_index_low: u32,
}

/// Which file the system reports.
pub open spec fn identified(information: FileInformation) -> PrivateFileIdentity {
    PrivateFileIdentity {
        first: information.volume_serial_number as u64,
        second: (information.file_index_high * 0x1_0000_0000 + information.file_index_low) as u64,
    }
}

/// Which file the system reports.
pub fn file_identity(information: &FileInformation) -> (identity: PrivateFileIdentity)
    ensures
        identity == identified(*information),
{
    let high: u64 = information.file_index_high as u64;
    PrivateFileIdentity::new(
        information.volume_serial_number as u64,
        high * 0x1_0000_0000 + information.file_index_low as u64,
    )
}

/// Which file an open file is, where it is a regular file.
pub open spec fn regular_identity(
    handle: Result<FileInformation, PlatformError>,
    refusal: &'static str,
) -> Result<PrivateFileIdentity, PlatformError> {
    match handle {
        Err(failure) => Err(failure),
        Ok(information) => if information.attributes & (FILE_ATTRIBUTE_REPARSE_POINT
            | FILE_ATTRIBUTE_DIRECTORY) != 0 {
            Err(error::denied(refusal))
        } else {
            Ok(identified(information))
        },
    }
}

fn identify_regular(handle: &Result<FileInformation, PlatformError>, refusal: &'static str) -> (result:
    Result<PrivateFileIdentity, PlatformError>)
    ensures
        result == regular_identity(*handle, refusal),
{
    match handle {
        Err(failure) => Err(*failure),
        Ok(information) => {
            if information.attributes & (FILE_ATTRIBUTE_REPARSE_POINT | FILE_ATTRIBUTE_DIRECTORY)
                != 0 {
                return Err(permission_denied(refusal));
            }
            Ok(file_identity(information))
        },
    }
}

/// Which file a path leads to.
pub fn private_file_identity(handle: &Result<FileInformation, PlatformError>) -> (result: Result<
    PrivateFileIdentity,
    PlatformError,
>)
    ensures
        result == regular_identity(*handle, "private store target is not a regular file"),
{
    identify_regular(handle, "private store target is not a regular file")
}

/// Which file an open file is.
pub fn private_file_identity_from_handle(handle: &Result<FileInformation, PlatformError>) -> (result:
    Result<PrivateFileIdentity, PlatformError>)
    ensures
        result == regular_identity(
            *handle,
            "private publication handle is not a regular non-reparse file",
        ),
{
    identify_regular(handle, "private publication handle is not a regular non-reparse file")
}

/// Which file the program is that asks for authority.
pub fn authorization_target_identity(handle: &Result<FileInformation, PlatformError>) -> (result:
    Result<PrivateFileIdentity, PlatformError>)
    ensures
        result == regular_identity(
            *handle,
            "setup authorization target is not a regular local file",
        ),
{
    identify_regular(handle, "setup authorization target is not a regular local file")
}

// ---------------------------------------------------------------------------
// Private files
// ---------------------------------------------------------------------------

/// What was found out of a file that was opened: what the system reports of it,
/// and its descriptor.
#[derive(Debug)]
pub struct HandleFacts {
    pub handle: Result<FileInformation, PlatformError>,
    pub descriptor: SecurityFacts,
}

/// The verdict on an open private file.
pub open spec fn handle_verdict(owner: ManifestOwner, facts: HandleFacts) -> Result<
    (),
    PlatformError,
> {
    match regular_identity(
        facts.handle,
        "private publication handle is not a regular non-reparse file",
    ) {
        Err(failure) => Err(failure),
        Ok(_) => store::rules_verdict(owner, facts.descriptor, store::private_kind(owner)),
    }
}

/// Judges an open private file.
pub fn verify_private_file_handle_security(owner: ManifestOwner, facts: &HandleFacts) -> (result:
    Result<(), PlatformError>)
    ensures
        result == handle_verdict(owner, *facts),
{
    match private_file_identity_from_handle(&facts.handle) {
        Ok(_) => {},
        Err(failure) => {
            return Err(failure);
        },
    }
    judge_rules(owner, &facts.descriptor, kind_of_private_file(owner))
}

/// The verdict on a private file that was opened by its path: it is the expected
/// file, with its rules.
pub open spec fn expected_file_verdict(
    owner: ManifestOwner,
    facts: HandleFacts,
    expected: PrivateFileIdentity,
) -> Result<(), PlatformError> {
    match regular_identity(facts.handle, "private store target is not a regular file") {
        Err(failure) => Err(failure),
        Ok(identity) => if identity != expected {
            Err(error::denied("private store target identity changed"))
        } else {
            store::rules_verdict(owner, facts.descriptor, store::private_kind(owner))
        },
    }
}

/// Judges a private file that was opened to be read.
pub fn open_verified_private_file_for_read(
    owner: ManifestOwner,
    facts: &HandleFacts,
    expected: PrivateFileIdentity,
) -> (result: Result<(), PlatformError>)
    ensures
        result == expected_file_verdict(owner, *facts, expected),
{
    match private_file_identity(&facts.handle) {
        Err(failure) => Err(failure),
        Ok(identity) => {
            if identity != expected {
                return Err(permission_denied("private store target identity changed"));
            }
            judge_rules(owner, &facts.descriptor, kind_of_private_file(owner))
        },
    }
}

/// Judges a private file that was opened to be removed.
pub fn prepare_verified_private_file_removal(
    owner: ManifestOwner,
    facts: &HandleFacts,
    expected: PrivateFileIdentity,
) -> (result: Result<(), PlatformError>)
    ensures
        result == expected_file_verdict(owner, *facts, expected),
{
    open_verified_private_file_for_read(owner, facts, expected)
}

/// The descriptor that an object is made with; objects of the running process
/// have none of their own.
pub open spec fn creation_sddl(owner: ManifestOwner, principal: Seq<char>, kind: AclKind) -> Option<
    Seq<char>,
> {
    if store::process_owned(owner) {
        None
    } else if owner is User {
        Some(acl::sddl(principal, kind))
    } else {
        Some(acl::sddl("unused"@, kind))
    }
}

fn describe_new(owner: ManifestOwner, principal: &str, kind: AclKind) -> (descriptor: Option<String>)
    ensures
        text::optional_text(descriptor) == creation_sddl(owner, principal@, kind),
{
    match owner {
        ManifestOwner::System => Some(acl_sddl("unused", kind)),
        ManifestOwner::User => Some(acl_sddl(principal, kind)),
        _ => None,
    }
}

/// The descriptor that a private file is made with.
pub fn private_file_descriptor(owner: ManifestOwner, principal: &str) -> (descriptor: Option<
    String,
>)
    ensures
        text::optional_text(descriptor) == creation_sddl(
            owner,
            principal@,
            store::private_kind(owner),
        ),
{
    describe_new(owner, principal, kind_of_private_file(owner))
}

/// The descriptor that a directory is made with that is not published yet.
pub fn staging_directory_descriptor(owner: ManifestOwner, principal: &str) -> (descriptor: Option<
    String,
>)
    ensures
        text::optional_text(descriptor) == creation_sddl(
            owner,
            principal@,
            store::staging_kind(owner),
        ),
{
    let kind = match owner {
        ManifestOwner::User => AclKind::UserDirectory,
        _ => AclKind::Staging,
    };
    describe_new(owner, principal, kind)
}

/// What was found out when the lock of a store was opened: whether it could be
/// made, what was there instead, whether that could be opened, and what it was
/// in the end.
#[derive(Debug)]
pub struct LockOpening {
    pub created: Result<(), PlatformError>,
    pub existing: ObjectFacts,
    pub reopened: Result<(), PlatformError>,
    pub last: ObjectFacts,
}

/// Whether a store's lock is open. One that was there is judged before it is
/// opened, and any is judged once it is open.
pub open spec fn lock_opened(owner: ManifestOwner, opening: LockOpening) -> Result<
    (),
    PlatformError,
> {
    let kind = store::private_kind(owner);
    let last = store::object_verdict(owner, opening.last, false, kind);
    match opening.created {
        Ok(()) => last,
        Err(failure) => if failure.spec_kind() != ErrorKind::AlreadyExists {
            Err(failure)
        } else {
            match store::object_verdict(owner, opening.existing, false, kind) {
                Err(failure) => Err(failure),
                Ok(()) => match opening.reopened {
                    Err(failure) => Err(failure),
                    Ok(()) => last,
                },
            }
        },
    }
}

/// Judges how a store's lock was opened.
pub fn open_manifest_lock(owner: ManifestOwner, opening: &LockOpening) -> (result: Result<
    (),
    PlatformError,
>)
    ensures
        result == lock_opened(owner, *opening),
{
    match opening.created {
        Ok(()) => {},
        Err(failure) => {
            match failure.kind() {
                ErrorKind::AlreadyExists => {},
                _ => {
                    return Err(failure);
                },
            }
            match verify_private_file_security(owner, &opening.existing) {
                Ok(()) => {},
                Err(failure) => {
                    return Err(failure);
                },
            }
            match opening.reopened {
                Ok(()) => {},
                Err(failure) => {
                    return Err(failure);
                },
            }
        },
    }
    verify_private_file_security(owner, &opening.last)
}

// ---------------------------------------------------------------------------
// Manifests
// ---------------------------------------------------------------------------

/// A directory that was made private and is not published yet.
#[derive(Debug)]
pub struct PrivateManifestStagingDirectory {
    path: WorkerPath,
}

impl View for PrivateManifestStagingDirectory {
    type V = PathModel;

    closed spec fn view(&self) -> PathModel {
        self.path@
    }
}

impl PrivateManifestStagingDirectory {
    /// Where the directory stands.
    pub fn path(&self) -> (path: &WorkerPath)
        ensures
            path@ == self@,
    {
        &self.path
    }
}

/// Keeps a directory that was made with `staging_directory_descriptor`.
pub fn create_private_manifest_staging_directory(
    path: &WorkerPath,
    created: Result<(), PlatformError>,
) -> (result: Result<PrivateManifestStagingDirectory, PlatformError>)
    ensures
        match created {
            Ok(()) => result matches Ok(directory) && directory@ == path@,
            Err(failure) => result == Err::<PrivateManifestStagingDirectory, PlatformError>(
                failure,
            ),
        },
{
    match created {
        Ok(()) => Ok(PrivateManifestStagingDirectory { path: path.clone() }),
        Err(failure) => Err(failure),
    }
}

/// What came of giving something a name that must be free: where that failed and
/// something has the name, that is why.
pub open spec fn named_without_replacing(
    moved: Result<(), PlatformError>,
    destination_exists: bool,
    refusal: &'static str,
) -> Result<(), PlatformError> {
    match moved {
        Ok(()) => Ok(()),
        Err(failure) => if destination_exists {
            Err(PlatformError::Policy { kind: ErrorKind::AlreadyExists, message: refusal })
        } else {
            Err(failure)
        },
    }
}

fn name_without_replacing(
    moved: Result<(), PlatformError>,
    destination_exists: bool,
    refusal: &'static str,
) -> (result: Result<(), PlatformError>)
    ensures
        result == named_without_replacing(moved, destination_exists, refusal),
{
    match moved {
        Ok(()) => Ok(()),
        Err(failure) => {
            if destination_exists {
                Err(PlatformError::Policy { kind: ErrorKind::AlreadyExists, message: refusal })
            } else {
                Err(failure)
            }
        },
    }
}

/// Judges how a directory was published. `staging` is what it was before.
pub fn publish_manifest_directory(
    staging: &PathFacts,
    moved: Result<(), PlatformError>,
    destination_exists: bool,
) -> (result: Result<(), PlatformError>)
    ensures
        result == (match descriptor::kind_verdict(*staging, true) {
            Err(failure) => Err(failure),
            Ok(()) => named_without_replacing(
                moved,
                destination_exists,
                "manifest destination already exists",
            ),
        }),
{
    match require_kind(staging, true) {
        Ok(()) => {},
        Err(failure) => {
            return Err(failure);
        },
    }
    name_without_replacing(moved, destination_exists, "manifest destination already exists")
}

/// The descriptor that an object is given when it is hardened.
pub open spec fn hardening_sddl(owner: ManifestOwner, worker: Seq<char>, kind: AclKind) -> Option<
    Seq<char>,
> {
    if store::process_owned(owner) {
        None
    } else {
        Some(acl::sddl(worker, kind))
    }
}

/// The descriptor that a directory is given when it is hardened.
pub fn hardened_directory_descriptor(owner: ManifestOwner, worker: &str) -> (descriptor: Option<
    String,
>)
    ensures
        text::optional_text(descriptor) == hardening_sddl(owner, worker@, store::directory_kind(owner)),
{
    if is_test_owner(owner) {
        None
    } else {
        Some(acl_sddl(worker, kind_of_directory(owner)))
    }
}

/// The descriptor that a manifest is given when it is hardened.
pub fn hardened_file_descriptor(owner: ManifestOwner, worker: &str) -> (descriptor: Option<String>)
    ensures
        text::optional_text(descriptor) == hardening_sddl(owner, worker@, store::manifest_kind(owner)),
{
    if is_test_owner(owner) {
        None
    } else {
        Some(acl_sddl(worker, kind_of_manifest(owner)))
    }
}

/// What came of hardening an object: it is what it should be, its descriptor was
/// set, and is found to be as it was set.
pub open spec fn hardened(
    owner: ManifestOwner,
    path: PathFacts,
    directory: bool,
    applied: Result<(), PlatformError>,
    after: SecurityFacts,
    kind: AclKind,
) -> Result<(), PlatformError> {
    match descriptor::kind_verdict(path, directory) {
        Err(failure) => Err(failure),
        Ok(()) => if store::process_owned(owner) {
            Ok(())
        } else {
            match applied {
                Err(failure) => Err(failure),
                Ok(()) => descriptor::descriptor_verdict(after, kind),
            }
        },
    }
}

fn judge_hardening(
    owner: ManifestOwner,
    path: &PathFacts,
    directory: bool,
    applied: Result<(), PlatformError>,
    after: &SecurityFacts,
    kind: AclKind,
) -> (result: Result<(), PlatformError>)
    ensures
        result == hardened(owner, *path, directory, applied, *after, kind),
{
    match require_kind(path, directory) {
        Ok(()) => {},
        Err(failure) => {
            return Err(failure);
        },
    }
    if is_test_owner(owner) {
        return Ok(());
    }
    match applied {
        Ok(()) => {},
        Err(failure) => {
            return Err(failure);
        },
    }
    judge_rules(owner, after, kind)
}

/// Judges how a directory was hardened.
pub fn harden_manifest_directory(
    owner: ManifestOwner,
    path: &PathFacts,
    applied: Result<(), PlatformError>,
    after: &SecurityFacts,
) -> (result: Result<(), PlatformError>)
    ensures
        result == hardened(owner, *path, true, applied, *after, store::directory_kind(owner)),
{
    judge_hardening(owner, path, true, applied, after, kind_of_directory(owner))
}

/// Judges how a manifest was hardened.
pub fn harden_manifest_file(
    owner: ManifestOwner,
    path: &PathFacts,
    applied: Result<(), PlatformError>,
    after: &SecurityFacts,
) -> (result: Result<(), PlatformError>)
    ensures
        result == hardened(owner, *path, false, applied, *after, store::manifest_kind(owner)),
{
    judge_hardening(owner, path, false, applied, after, kind_of_manifest(owner))
}

/// The verdict on the directory of a manifest and everything above it.
pub open spec fn manifest_parent_verdict(
    parent: PathModel,
    owner: ManifestOwner,
    trusted_root: PathModel,
    chain: Seq<ObjectFacts>,
) -> Result<(), PlatformError> {
    match store::ancestors_verdict(parent, owner, trusted_root, chain) {
        Err(failure) => Err(failure),
        Ok(()) => store::rules_verdict(owner, chain[0].descriptor, store::directory_kind(owner)),
    }
}

fn judge_manifest_parent(
    parent: &WorkerPath,
    owner: ManifestOwner,
    trusted_root: &WorkerPath,
    chain: &[ObjectFacts],
) -> (result: Result<(), PlatformError>)
    requires
        store::chain_of(parent@, chain@),
    ensures
        result == manifest_parent_verdict(parent@, owner, trusted_root@, chain@),
{
    match verify_manifest_ancestors(parent, owner, trusted_root, chain) {
        Ok(()) => {},
        Err(failure) => {
            return Err(failure);
        },
    }
    judge_rules(owner, &chain[0].descriptor, kind_of_directory(owner))
}

/// The verdict on the directory of a manifest and what is above it, before the
/// manifest is opened.
pub open spec fn unopened_manifest_verdict(
    path: PathModel,
    owner: ManifestOwner,
    trusted_root: PathModel,
    chain: Seq<ObjectFacts>,
) -> Result<(), PlatformError> {
    if path.components.len() == 0 {
        Err(error::malformed("manifest path has no parent directory"))
    } else {
        match descriptor::kind_verdict(chain[0].path, true) {
            Err(failure) => Err(failure),
            Ok(()) => manifest_parent_verdict(
                layout::shortened(path, (path.components.len() - 1) as nat),
                owner,
                trusted_root,
                chain,
            ),
        }
    }
}

/// Judges the directory of a manifest and what is above it, before the manifest
/// is opened.
pub fn check_manifest_parent(
    path: &WorkerPath,
    owner: ManifestOwner,
    trusted_root: &WorkerPath,
    chain: &[ObjectFacts],
) -> (result: Result<(), PlatformError>)
    requires
        chain@.len() == path@.components.len(),
    ensures
        result == unopened_manifest_verdict(path@, owner, trusted_root@, chain@),
{
    assert(path@.components.len() == path.components@.len());
    if path.components.len() == 0 {
        return Err(invalid_data("manifest path has no parent directory"));
    }
    let parent = path.first(path.components.len() - 1);
    match require_kind(&chain[0].path, true) {
        Ok(()) => judge_manifest_parent(&parent, owner, trusted_root, chain),
        Err(failure) => Err(failure),
    }
}

/// The verdict on a manifest that was opened to be read: its directory is
/// trusted before and after, and the file in between.
pub open spec fn opened_manifest_verdict(
    path: PathModel,
    owner: ManifestOwner,
    trusted_root: PathModel,
    before: Seq<ObjectFacts>,
    file: HandleFacts,
    after: Seq<ObjectFacts>,
) -> Result<(), PlatformError> {
    match unopened_manifest_verdict(path, owner, trusted_root, before) {
        Err(failure) => Err(failure),
        Ok(()) => match regular_identity(file.handle, "manifest target is not a regular file") {
            Err(failure) => Err(failure),
            Ok(_) => if store::process_owned(owner) {
                Ok(())
            } else {
                match descriptor::descriptor_verdict(file.descriptor, store::manifest_kind(owner)) {
                    Err(failure) => Err(failure),
                    Ok(()) => manifest_parent_verdict(
                        layout::shortened(path, (path.components.len() - 1) as nat),
                        owner,
                        trusted_root,
                        after,
                    ),
                }
            },
        },
    }
}

/// Judges a manifest that was opened to be read. `before` and `after` describe
/// its directory and what is above that, before and after it was opened.
pub fn open_verified_manifest_file_for_read(
    path: &WorkerPath,
    owner: ManifestOwner,
    trusted_root: &WorkerPath,
    before: &[ObjectFacts],
    file: &HandleFacts,
    after: &[ObjectFacts],
) -> (result: Result<(), PlatformError>)
    requires
        before@.len() == path@.components.len(),
        after@.len() == path@.components.len(),
    ensures
        result == opened_manifest_verdict(
            path@,
            owner,
            trusted_root@,
            before@,
            *file,
            after@,
        ),
{
    assert(path@.components.len() == path.components@.len());
    match check_manifest_parent(path, owner, trusted_root, before) {
        Ok(()) => {},
        Err(failure) => {
            return Err(failure);
        },
    }
    let parent = path.first(path.components.len() - 1);
    match identify_regular(&file.handle, "manifest target is not a regular file") {
        Ok(_) => {},
        Err(failure) => {
            return Err(failure);
        },
    }
    if is_test_owner(owner) {
        return Ok(());
    }
    match judge_rules(owner, &file.descriptor, kind_of_manifest(owner)) {
        Ok(()) => {},
        Err(failure) => {
            return Err(failure);
        },
    }
    judge_manifest_parent(&parent, owner, trusted_root, after)
}

// ---------------------------------------------------------------------------
// Publication of a private file
// ---------------------------------------------------------------------------

/// A private file that is being written.
#[derive(Debug)]
pub struct PrivatePublicationFile {
    path: WorkerPath,
    identity: PrivateFileIdentity,
    owner: ManifestOwner,
}

/// What a publication is: where the file is, which file it is, and whose.
pub struct PublicationModel {
    pub path: PathModel,
    pub identity: PrivateFileIdentity,
    pub owner: ManifestOwner,
}

impl View for PrivatePublicationFile {
    type V = PublicationModel;

    closed spec fn view(&self) -> PublicationModel {
        PublicationModel { path: self.path@, identity: self.identity, owner: self.owner }
    }
}

/// A private file that was written completely.
#[derive(Debug)]
pub struct CompletePrivatePublication {
    file: PrivatePublicationFile,
}

impl View for CompletePrivatePublication {
    type V = PublicationModel;

    closed spec fn view(&self) -> PublicationModel {
        self.file@
    }
}

/// A private file that was published.
#[derive(Debug)]
pub struct DurablePrivatePublication {
    path: WorkerPath,
    identity: PrivateFileIdentity,
}

/// Which file was published, and where.
pub struct PublishedModel {
    pub path: PathModel,
    pub identity: PrivateFileIdentity,
}

impl View for DurablePrivatePublication {
    type V = PublishedModel;

    closed spec fn view(&self) -> PublishedModel {
        PublishedModel { path: self.path@, identity: self.identity }
    }
}

impl DurablePrivatePublication {
    /// Where the file stands.
    pub fn path(&self) -> (path: &WorkerPath)
        ensures
            path@ == self@.path,
    {
        &self.path
    }

    /// Which file it is.
    pub fn identity(&self) -> (identity: PrivateFileIdentity)
        ensures
            identity == self@.identity,
    {
        self.identity
    }
}

/// Starts to write a private file. `created` is what came of making it, `facts`
/// what was found out of the file that was made.
pub fn create_private_publication_file(
    path: &WorkerPath,
    owner: ManifestOwner,
    created: Result<(), PlatformError>,
    facts: &HandleFacts,
) -> (result: Result<PrivatePublicationFile, PlatformError>)
    ensures
        ({
            let refused = |failure: PlatformError|
                result == Err::<PrivatePublicationFile, PlatformError>(failure);
            if path@.components.len() == 0 {
                refused(
                    error::bad_input(
                        "private publication temporary must have a parent and leaf name",
                    ),
                )
            } else {
                match created {
                    Err(failure) => refused(failure),
                    Ok(()) => match handle_verdict(owner, *facts) {
                        Err(failure) => refused(failure),
                        Ok(()) => result matches Ok(file) && file@ == (PublicationModel {
                            path: path@,
                            identity: identified(facts.handle->Ok_0),
                            owner,
                        }),
                    },
                }
            }
        }),
{
    assert(path@.components.len() == path.components@.len());
    if path.components.len() == 0 {
        return Err(
            PlatformError::Policy {
                kind: ErrorKind::InvalidInput,
                message: "private publication temporary must have a parent and leaf name",
            },
        );
    }
    match created {
        Ok(()) => {},
        Err(failure) => {
            return Err(failure);
        },
    }
    let identity = match private_file_identity_from_handle(&facts.handle) {
        Ok(identity) => identity,
        Err(failure) => {
            return Err(failure);
        },
    };
    match verify_private_file_handle_security(owner, facts) {
        Ok(()) => {},
        Err(failure) => {
            return Err(failure);
        },
    }
    Ok(PrivatePublicationFile { path: path.clone(), identity, owner })
}

/// What was found out when a private file was completed: whether it was flushed
/// and reached the disk, the open file and its descriptor, the file at its path,
/// whether it could be read from its start, and what it holds.
#[derive(Debug)]
pub struct Completion {
    pub flushed: Result<(), PlatformError>,
    pub synced: Result<(), PlatformError>,
    pub open: HandleFacts,
    pub named: HandleFacts,
    pub rewound: Result<(), PlatformError>,
    pub read: Result<Vec<u8>, PlatformError>,
}

/// Whether a private file is complete: it is on the disk, is the file that was
/// made, under its name too, with its rules, and holds exactly what it should.
pub open spec fn completed(
    file: PublicationModel,
    completion: Completion,
    expected_bytes: Seq<u8>,
) -> Result<(), PlatformError> {
    match error::first_refusal(
        seq![
            completion.flushed,
            completion.synced,
            handle_verdict(file.owner, completion.open),
            if identified(completion.open.handle->Ok_0) == file.identity {
                Ok(())
            } else {
                Err(error::denied("private publication handle identity changed"))
            },
            expected_file_verdict(file.owner, completion.named, file.identity),
            completion.rewound,
        ],
    ) {
        Err(failure) => Err(failure),
        Ok(()) => match completion.read {
            Err(failure) => Err(failure),
            Ok(bytes) => if bytes@ == expected_bytes {
                Ok(())
            } else {
                Err(
                    error::malformed(
                        "private publication bytes differ from the completed document",
                    ),
                )
            },
        },
    }
}

impl PrivatePublicationFile {
    /// Which file it is.
    pub fn identity(&self) -> (identity: PrivateFileIdentity)
        ensures
            identity == self@.identity,
    {
        self.identity
    }

    /// Ends the writing of a private file that must hold exactly
    /// `expected_bytes`.
    pub fn complete_exact(self, completion: &Completion, expected_bytes: &[u8]) -> (result: Result<
        CompletePrivatePublication,
        PlatformError,
    >)
        ensures
            match completed(self@, *completion, expected_bytes@) {
                Ok(()) => result matches Ok(complete) && complete@ == self@,
                Err(failure) => result == Err::<CompletePrivatePublication, PlatformError>(failure),
            },
    {
        proof {
            reveal_with_fuel(error::first_refusal, 7);
        }
        let ghost checks = seq![
            completion.flushed,
            completion.synced,
            handle_verdict(self@.owner, completion.open),
            if identified(completion.open.handle->Ok_0) == self@.identity {
                Ok(())
            } else {
                Err(error::denied("private publication handle identity changed"))
            },
            expected_file_verdict(self@.owner, completion.named, self@.identity),
            completion.rewound,
        ];
        let same = match private_file_identity_from_handle(&completion.open.handle) {
            Ok(identity) => identity == self.identity,
            Err(_) => false,
        };
        let unchanged: Result<(), PlatformError> = if same {
            Ok(())
        } else {
            Err(permission_denied("private publication handle identity changed"))
        };
        let handled = verify_private_file_handle_security(self.owner, &completion.open);
        let named = open_verified_private_file_for_read(
            self.owner,
            &completion.named,
            self.identity,
        );
        let required = [
            completion.flushed,
            completion.synced,
            handled,
            unchanged,
            named,
            completion.rewound,
        ];
        let all = error::require_all(&required);
        proof {
            if handled is Ok {
                assert(required@ =~= checks);
            } else {
                lemma_refused_before(required@, checks, 2);
            }
        }
        match all {
            Ok(()) => {},
            Err(failure) => {
                return Err(failure);
            },
        }
        match &completion.read {
            Err(failure) => Err(*failure),
            Ok(bytes) => {
                if !same_bytes(bytes, expected_bytes) {
                    return Err(
                        invalid_data(
                            "private publication bytes differ from the completed document",
                        ),
                    );
                }
                Ok(CompletePrivatePublication { file: self })
            },
        }
    }
}

proof fn lemma_refused_before(
    left: Seq<Result<(), PlatformError>>,
    right: Seq<Result<(), PlatformError>>,
    at: nat,
)
    requires
        at < left.len() && at < right.len(),
        left[at as int] is Err,
        forall|i: int| 0 <= i <= at ==> left[i] == right[i],
    ensures
        error::first_refusal(left) == error::first_refusal(right),
    decreases at,
{
    if !(left[0] is Err) {
        lemma_refused_before(left.drop_first(), right.drop_first(), (at - 1) as nat);
    }
}

/// What was found out when a private file was published: the open file, the file
/// at its first path, whether it could be given its name, whether something had
/// that name, and the file under that name.
#[derive(Debug)]
pub struct Naming {
    pub open: Result<FileInformation, PlatformError>,
    pub temporary: HandleFacts,
    pub moved: Result<(), PlatformError>,
    pub destination_exists: bool,
    pub destination: HandleFacts,
}

/// Whether a private file may be given its name: it is the file that was
/// completed, and it is still at its first path.
pub open spec fn nameable(
    owner: ManifestOwner,
    expected: PrivateFileIdentity,
    open: Result<FileInformation, PlatformError>,
    temporary: HandleFacts,
) -> Result<(), PlatformError> {
    match regular_identity(open, "private publication handle is not a regular non-reparse file") {
        Err(failure) => Err(failure),
        Ok(identity) => if identity != expected {
            Err(error::denied("private publication handle identity changed"))
        } else {
            expected_file_verdict(owner, temporary, expected)
        },
    }
}

/// Whether a private file got its name: it is the file that was completed,
/// before and after.
pub open spec fn published(
    owner: ManifestOwner,
    expected: PrivateFileIdentity,
    naming: Naming,
) -> Result<(), PlatformError> {
    match nameable(owner, expected, naming.open, naming.temporary) {
        Err(failure) => Err(failure),
        Ok(()) => match named_without_replacing(
            naming.moved,
            naming.destination_exists,
            "private publication destination already exists",
        ) {
            Err(failure) => Err(failure),
            Ok(()) => expected_file_verdict(owner, naming.destination, expected),
        },
    }
}

/// Whether two paths are entries of the same directory.
pub open spec fn same_directory(left: PathModel, right: PathModel) -> bool {
    &&& left.components.len() > 0
    &&& right.components.len() > 0
    &&& layout::shortened(left, (left.components.len() - 1) as nat) == layout::shortened(
        right,
        (right.components.len() - 1) as nat,
    )
}

/// Judges whether a private file may be given its name.
pub fn may_name_private_file(
    owner: ManifestOwner,
    expected: PrivateFileIdentity,
    open: &Result<FileInformation, PlatformError>,
    temporary: &HandleFacts,
) -> (result: Result<(), PlatformError>)
    ensures
        result == nameable(owner, expected, *open, *temporary),
{
    match private_file_identity_from_handle(open) {
        Ok(identity) => {
            if identity != expected {
                return Err(permission_denied("private publication handle identity changed"));
            }
        },
        Err(failure) => {
            return Err(failure);
        },
    }
    open_verified_private_file_for_read(owner, temporary, expected)
}

/// Judges how a private file was given its name.
pub fn publish_private_file_no_replace(
    owner: ManifestOwner,
    expected: PrivateFileIdentity,
    naming: &Naming,
) -> (result: Result<(), PlatformError>)
    ensures
        result == published(owner, expected, *naming),
{
    match may_name_private_file(owner, expected, &naming.open, &naming.temporary) {
        Ok(()) => {},
        Err(failure) => {
            return Err(failure);
        },
    }
    match name_without_replacing(
        naming.moved,
        naming.destination_exists,
        "private publication destination already exists",
    ) {
        Ok(()) => {},
        Err(failure) => {
            return Err(failure);
        },
    }
    open_verified_private_file_for_read(owner, &naming.destination, expected)
}

/// Whether a file can be named so: in the directory that it is in.
pub open spec fn leaf_verdict(path: PathModel, destination: PathModel) -> Result<
    (),
    PlatformError,
> {
    if path.components.len() == 0 {
        Err(
            PlatformError::Policy {
                kind: ErrorKind::Other,
                message: "private publication has no parent",
            },
        )
    } else if !same_directory(path, destination) {
        Err(error::bad_input("private publication destination must be a same-directory leaf"))
    } else {
        Ok(())
    }
}

fn check_leaf(path: &WorkerPath, destination: &WorkerPath) -> (result: Result<(), PlatformError>)
    ensures
        result == leaf_verdict(path@, destination@),
{
    assert(path@.components.len() == path.components@.len());
    assert(destination@.components.len() == destination.components@.len());
    if path.components.len() == 0 {
        return Err(
            PlatformError::Policy {
                kind: ErrorKind::Other,
                message: "private publication has no parent",
            },
        );
    }
    let same = destination.components.len() > 0 && path.first(
        path.components.len() - 1,
    ).same_as(&destination.first(destination.components.len() - 1));
    if !same {
        return Err(
            PlatformError::Policy {
                kind: ErrorKind::InvalidInput,
                message: "private publication destination must be a same-directory leaf",
            },
        );
    }
    Ok(())
}

impl CompletePrivatePublication {
    /// Whether a complete file may be given its name now: what must hold before
    /// anything is renamed.
    pub fn may_publish(
        &self,
        destination: &WorkerPath,
        open: &Result<FileInformation, PlatformError>,
        temporary: &HandleFacts,
    ) -> (result: Result<(), PlatformError>)
        ensures
            result == (match leaf_verdict(self@.path, destination@) {
                Err(failure) => Err::<(), PlatformError>(failure),
                Ok(()) => nameable(self@.owner, self@.identity, *open, *temporary),
            }),
    {
        match check_leaf(&self.file.path, destination) {
            Ok(()) => may_name_private_file(
                self.file.owner,
                self.file.identity,
                open,
                temporary,
            ),
            Err(failure) => Err(failure),
        }
    }

    /// Gives a complete file its name in the directory that it is in.
    pub fn publish_no_replace(self, destination: &WorkerPath, naming: &Naming) -> (result: Result<
        DurablePrivatePublication,
        PlatformError,
    >)
        ensures
            ({
                let refused = |failure: PlatformError|
                    result == Err::<DurablePrivatePublication, PlatformError>(failure);
                match leaf_verdict(self@.path, destination@) {
                    Err(failure) => refused(failure),
                    Ok(()) => match published(self@.owner, self@.identity, *naming) {
                        Err(failure) => refused(failure),
                        Ok(()) => result matches Ok(durable) && durable@ == (PublishedModel {
                            path: destination@,
                            identity: self@.identity,
                        }),
                    },
                }
            }),
    {
        match check_leaf(&self.file.path, destination) {
            Ok(()) => {},
            Err(failure) => {
                return Err(failure);
            },
        }
        match publish_private_file_no_replace(self.file.owner, self.file.identity, naming) {
            Ok(()) => {},
            Err(failure) => {
                return Err(failure);
            },
        }
        Ok(DurablePrivatePublication { path: destination.clone(), identity: self.file.identity })
    }
}

/// A file that was published is, under its name, the very file that was written:
/// the one that was completed, with the rules of a private file.
pub proof fn published_files_are_the_completed_ones(
    owner: ManifestOwner,
    expected: PrivateFileIdentity,
    naming: Naming,
)
    requires
        published(owner, expected, naming) is Ok,
    ensures
        naming.moved is Ok,
        naming.destination.handle matches Ok(information) && identified(information) == expected,
        store::rules_verdict(owner, naming.destination.descriptor, store::private_kind(owner)) is Ok,
{
}

/// Nothing is ever replaced: where the name was taken, the publication fails.
pub proof fn taken_names_are_refused(
    owner: ManifestOwner,
    expected: PrivateFileIdentity,
    naming: Naming,
)
    requires
        naming.moved is Err,
    ensures
        published(owner, expected, naming) is Err,
{
}

} // verus!
