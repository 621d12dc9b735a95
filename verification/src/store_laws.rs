//! When stored files are trusted and how they are published, in terms of what the
//! system reported of the files and of the directories above them.

use crate::access_laws::{
    closed_to_strangers, descriptor_text, is_exact_list, lemma_descriptor_text,
    lemma_manifest_ancestor, lemma_path_kind, lemma_stored_object, lemma_user_ancestor, passed_on,
    told, worker_rights,
};
use crate::acl::{AclKind, UserAncestorOwner};
use crate::authority_laws::lemma_first_refusal;
use crate::descriptor;
use crate::descriptor::{PathFacts, SecurityFacts};
use crate::error;
use crate::error::{ErrorKind, PlatformError};
use crate::layout;
use crate::layout::{PathModel, WorkerPath};
use crate::publication;
use crate::publication::{
    authorization_target_identity, check_manifest_parent, create_private_manifest_staging_directory,
    create_private_publication_file, file_identity, harden_manifest_directory,
    harden_manifest_file, hardened_directory_descriptor, hardened_file_descriptor,
    may_name_private_file, open_manifest_lock, open_verified_manifest_file_for_read,
    open_verified_private_file_for_read, prepare_verified_private_file_removal,
    private_file_descriptor, private_file_identity, private_file_identity_from_handle,
    publish_manifest_directory, publish_private_file_no_replace, staging_directory_descriptor,
    verify_private_file_handle_security, CompletePrivatePublication, Completion,
    DurablePrivatePublication, FileInformation, HandleFacts, LockOpening, Naming,
    PrivateFileIdentity, PrivateManifestStagingDirectory, PrivatePublicationFile,
};
use crate::store;
use crate::store::{
    private_file_parent_mode_is_valid, verify_manifest_ancestors,
    verify_manifest_directory_security, verify_manifest_file_target, verify_manifest_parent_chain,
    verify_manifest_security, verify_private_file_security, verify_user_manifest_ancestors,
    ManifestOwner, ObjectFacts,
};
use vstd::prelude::*;

verus! {

// ---------------------------------------------------------------------------
// Words that the laws are stated with
// ---------------------------------------------------------------------------

/// Whether a path leads to a directory, or to a file, and nowhere else.
pub open spec fn leads_to_kind(path: PathFacts, directory: bool) -> bool {
    &&& path.attributes != 0xffff_ffff
    &&& path.attributes & 0x400 == 0
    &&& path.file_type matches Ok(kind) && if directory {
        kind.0
    } else {
        kind.1
    }
}

/// Whether an object has the owner and exactly the list of its kind.
pub open spec fn obeys(facts: SecurityFacts, kind: AclKind) -> bool {
    &&& told(facts)
    &&& facts.control matches Ok(control) && control & 0x1000 != 0
    &&& if kind == AclKind::UserFile || kind == AclKind::UserDirectory {
        facts.owner.worker
    } else {
        facts.owner.administrators
    }
    &&& is_exact_list(facts.entries->Ok_0@, passed_on(kind), worker_rights(kind))
}

/// Whether files of an owner have no rules of their own.
pub open spec fn has_no_rules(owner: ManifestOwner) -> bool {
    owner == ManifestOwner::CurrentProcess || owner == ManifestOwner::CurrentProcessWorker
}

/// Whether an object has the rules that it needs.
pub open spec fn obeys_for(owner: ManifestOwner, facts: SecurityFacts, kind: AclKind) -> bool {
    has_no_rules(owner) || obeys(facts, kind)
}

/// The kinds of what an owner stores: a user's files and directories are the user's;
/// others are manifests in directories that the worker may read, and private files and
/// unpublished directories that it may not.
pub open spec fn kind_for(owner: ManifestOwner, other: AclKind) -> AclKind {
    if owner == ManifestOwner::User {
        if other == AclKind::Directory || other == AclKind::Staging {
            AclKind::UserDirectory
        } else {
            AclKind::UserFile
        }
    } else {
        other
    }
}

/// Whether an open file is a regular file, and the one with an identity.
pub open spec fn is_file(
    handle: Result<FileInformation, PlatformError>,
    identity: PrivateFileIdentity,
) -> bool {
    &&& handle matches Ok(information)
    &&& information.attributes & 0x410 == 0
    &&& identity.first == information.volume_serial_number
    &&& identity.second == information.file_index_high * 0x1_0000_0000
        + information.file_index_low
}

proof fn lemma_obeys(owner: ManifestOwner, facts: SecurityFacts, kind: AclKind)
    ensures
        descriptor::descriptor_verdict(facts, kind) is Ok <==> obeys(facts, kind),
        store::rules_verdict(owner, facts, kind) is Ok <==> obeys_for(owner, facts, kind),
{
    lemma_stored_object(&facts, kind, descriptor::descriptor_verdict(facts, kind));
}

proof fn lemma_kind(path: PathFacts, directory: bool)
    ensures
        descriptor::kind_verdict(path, directory) is Ok <==> leads_to_kind(path, directory),
{
    lemma_path_kind(&path, directory, descriptor::kind_verdict(path, directory));
}

proof fn lemma_attributes()
    ensures
        descriptor::FILE_ATTRIBUTE_REPARSE_POINT | descriptor::FILE_ATTRIBUTE_DIRECTORY == 0x410u32,
{
    assert(0x400u32 | 0x10u32 == 0x410u32) by (bit_vector);
}

proof fn lemma_is_file(
    handle: Result<FileInformation, PlatformError>,
    refusal: &'static str,
    identity: PrivateFileIdentity,
)
    ensures
        publication::regular_identity(handle, refusal) == Ok::<_, PlatformError>(identity)
            <==> is_file(handle, identity),
        publication::regular_identity(handle, refusal) is Ok <==> (handle matches Ok(information)
            && information.attributes & 0x410 == 0),
{
    lemma_attributes();
}

// ---------------------------------------------------------------------------
// Which file a handle is
// ---------------------------------------------------------------------------

/// A file is identified by the number of its volume and the two halves of its own.
pub proof fn files_are_identified_by_their_numbers(
    information: &FileInformation,
    identity: PrivateFileIdentity,
)
    requires
        call_ensures(file_identity, (information,), identity),
    ensures
        identity.first == information.volume_serial_number,
        identity.second == information.file_index_high * 0x1_0000_0000
            + information.file_index_low,
{
}

/// A handle is identified exactly where it could be asked and is a regular file.
pub proof fn handles_are_identified_as_regular_files(
    handle: &Result<FileInformation, PlatformError>,
    by_path: Result<PrivateFileIdentity, PlatformError>,
    by_handle: Result<PrivateFileIdentity, PlatformError>,
    target: Result<PrivateFileIdentity, PlatformError>,
    identity: PrivateFileIdentity,
)
    requires
        call_ensures(private_file_identity, (handle,), by_path),
        call_ensures(private_file_identity_from_handle, (handle,), by_handle),
        call_ensures(authorization_target_identity, (handle,), target),
    ensures
        by_path == Ok::<_, PlatformError>(identity) <==> is_file(*handle, identity),
        by_handle == Ok::<_, PlatformError>(identity) <==> is_file(*handle, identity),
        target == Ok::<_, PlatformError>(identity) <==> is_file(*handle, identity),
        *handle matches Err(failure) ==> by_path == Err::<PrivateFileIdentity, _>(failure)
            && by_handle == by_path && target == by_path,
        *handle is Ok && by_path is Err ==> (by_path matches Err(PlatformError::Policy {
            kind: ErrorKind::PermissionDenied,
            ..
        })),
{
    lemma_is_file(*handle, "private store target is not a regular file", identity);
    lemma_is_file(
        *handle,
        "private publication handle is not a regular non-reparse file",
        identity,
    );
    lemma_is_file(*handle, "setup authorization target is not a regular local file", identity);
}

// ---------------------------------------------------------------------------
// Private files
// ---------------------------------------------------------------------------

/// An open private file is accepted exactly where it is a regular file with its rules.
pub proof fn open_private_files_have_their_rules(
    owner: ManifestOwner,
    facts: &HandleFacts,
    result: Result<(), PlatformError>,
)
    requires
        call_ensures(verify_private_file_handle_security, (owner, facts), result),
    ensures
        result is Ok <==> (facts.handle matches Ok(information) && information.attributes & 0x410
            == 0) && obeys_for(owner, facts.descriptor, kind_for(owner, AclKind::Lock)),
{
    lemma_handle(owner, *facts);
}

proof fn lemma_handle(owner: ManifestOwner, facts: HandleFacts)
    ensures
        publication::handle_verdict(owner, facts) is Ok <==> (facts.handle matches Ok(information)
            && information.attributes & 0x410 == 0) && obeys_for(
            owner,
            facts.descriptor,
            kind_for(owner, AclKind::Lock),
        ),
{
    lemma_attributes();
    lemma_obeys(owner, facts.descriptor, store::private_kind(owner));
}

proof fn lemma_expected(owner: ManifestOwner, facts: HandleFacts, expected: PrivateFileIdentity)
    ensures
        publication::expected_file_verdict(owner, facts, expected) is Ok <==> is_file(
            facts.handle,
            expected,
        ) && obeys_for(owner, facts.descriptor, kind_for(owner, AclKind::Lock)),
{
    lemma_attributes();
    lemma_is_file(facts.handle, "private store target is not a regular file", expected);
    lemma_obeys(owner, facts.descriptor, store::private_kind(owner));
}

/// A private file is read, and removed, exactly where what was opened is the expected
/// file and has its rules.
pub proof fn expected_files_are_read_and_removed(
    owner: ManifestOwner,
    facts: &HandleFacts,
    expected: PrivateFileIdentity,
    read: Result<(), PlatformError>,
    removed: Result<(), PlatformError>,
)
    requires
        call_ensures(open_verified_private_file_for_read, (owner, facts, expected), read),
        call_ensures(prepare_verified_private_file_removal, (owner, facts, expected), removed),
    ensures
        read is Ok <==> is_file(facts.handle, expected) && obeys_for(
            owner,
            facts.descriptor,
            kind_for(owner, AclKind::Lock),
        ),
        removed is Ok <==> read is Ok,
{
    lemma_expected(owner, *facts, expected);
}

/// Whether an object is a file, or a directory, with the rules of a kind.
pub open spec fn stands(
    owner: ManifestOwner,
    facts: ObjectFacts,
    directory: bool,
    kind: AclKind,
) -> bool {
    leads_to_kind(facts.path, directory) && obeys_for(owner, facts.descriptor, kind)
}

proof fn lemma_stands(owner: ManifestOwner, facts: ObjectFacts, directory: bool, kind: AclKind)
    ensures
        store::object_verdict(owner, facts, directory, kind) is Ok <==> stands(
            owner,
            facts,
            directory,
            kind,
        ),
{
    lemma_kind(facts.path, directory);
    lemma_obeys(owner, facts.descriptor, kind);
}

/// A store's lock is open exactly where it was made, or was there with its rules and
/// could be opened, and what is open is a file with its rules.
pub proof fn locks_are_open_with_their_rules(
    owner: ManifestOwner,
    opening: &LockOpening,
    result: Result<(), PlatformError>,
)
    requires
        call_ensures(open_manifest_lock, (owner, opening), result),
    ensures
        result is Ok <==> {
            let kind = kind_for(owner, AclKind::Lock);
            &&& opening.created is Ok || (opening.created->Err_0.spec_kind()
                == ErrorKind::AlreadyExists && stands(owner, opening.existing, false, kind)
                && opening.reopened is Ok)
            &&& stands(owner, opening.last, false, kind)
        },
        opening.created matches Err(failure) ==> (failure.spec_kind() != ErrorKind::AlreadyExists
            ==> result == Err::<(), _>(failure)),
{
    lemma_stands(owner, opening.existing, false, store::private_kind(owner));
    lemma_stands(owner, opening.last, false, store::private_kind(owner));
}

/// Directories of manifests, manifests and private files are accepted exactly where they
/// are what they should be, with the rules of their kind.
pub proof fn stored_objects_stand_with_their_rules(
    owner: ManifestOwner,
    facts: &ObjectFacts,
    directory: Result<(), PlatformError>,
    file: Result<(), PlatformError>,
    target: Result<(), PlatformError>,
)
    requires
        call_ensures(verify_manifest_directory_security, (owner, facts), directory),
        call_ensures(verify_private_file_security, (owner, facts), file),
        call_ensures(verify_manifest_file_target, (&facts.path,), target),
    ensures
        directory is Ok <==> stands(owner, *facts, true, kind_for(owner, AclKind::Directory)),
        file is Ok <==> stands(owner, *facts, false, kind_for(owner, AclKind::Lock)),
        target is Ok <==> leads_to_kind(facts.path, false),
{
    lemma_stands(owner, *facts, true, store::directory_kind(owner));
    lemma_stands(owner, *facts, false, store::private_kind(owner));
    lemma_kind(facts.path, false);
}

/// A directory of a user is for the user alone; into others no one else may write.
pub proof fn private_directories_have_private_modes(owner: ManifestOwner, mode: u32, valid: bool)
    requires
        call_ensures(private_file_parent_mode_is_valid, (owner, mode), valid),
    ensures
        valid <==> if owner == ManifestOwner::User {
            mode & 0x1ff == 0x1c0
        } else {
            mode & 0x12 == 0
        },
{
}

// ---------------------------------------------------------------------------
// Descriptors of what is made
// ---------------------------------------------------------------------------

/// How an object of a kind is described when it is made.
pub open spec fn described(worker: Seq<char>, kind: AclKind) -> Seq<char> {
    descriptor_text(
        if kind == AclKind::UserFile || kind == AclKind::UserDirectory {
            worker
        } else {
            "BA"@
        },
        worker,
        worker_rights(kind),
        passed_on(kind) == 3,
    )
}

/// What is made and hardened is described as its kind is accepted; what belongs to the
/// running process is not described at all.
pub proof fn stored_objects_are_described_as_they_are_accepted(
    owner: ManifestOwner,
    worker: &str,
    private: Option<String>,
    staging: Option<String>,
    directory: Option<String>,
    file: Option<String>,
)
    requires
        call_ensures(private_file_descriptor, (owner, worker), private),
        call_ensures(staging_directory_descriptor, (owner, worker), staging),
        call_ensures(hardened_directory_descriptor, (owner, worker), directory),
        call_ensures(hardened_file_descriptor, (owner, worker), file),
    ensures
        private is None <==> has_no_rules(owner),
        staging is None <==> has_no_rules(owner),
        directory is None <==> has_no_rules(owner),
        file is None <==> has_no_rules(owner),
        private matches Some(said) ==> said@ == described(
            worker@,
            kind_for(owner, AclKind::Lock),
        ),
        staging matches Some(said) ==> said@ == described(
            worker@,
            kind_for(owner, AclKind::Staging),
        ),
        directory matches Some(said) ==> said@ == described(
            worker@,
            kind_for(owner, AclKind::Directory),
        ),
        file matches Some(said) ==> said@ == described(
            worker@,
            kind_for(owner, AclKind::Manifest),
        ),
{
    lemma_descriptor_text(worker@, store::private_kind(owner));
    lemma_descriptor_text(worker@, store::staging_kind(owner));
    lemma_descriptor_text(worker@, store::directory_kind(owner));
    lemma_descriptor_text(worker@, store::manifest_kind(owner));
    lemma_descriptor_text("unused"@, store::private_kind(owner));
    lemma_descriptor_text("unused"@, store::staging_kind(owner));
}

/// An object is hardened exactly where it is what it should be, its descriptor was set,
/// and it is then found with the rules of its kind.
pub proof fn hardened_objects_have_their_rules(
    owner: ManifestOwner,
    path: &PathFacts,
    applied: Result<(), PlatformError>,
    after: &SecurityFacts,
    directory: Result<(), PlatformError>,
    file: Result<(), PlatformError>,
)
    requires
        call_ensures(harden_manifest_directory, (owner, path, applied, after), directory),
        call_ensures(harden_manifest_file, (owner, path, applied, after), file),
    ensures
        directory is Ok <==> leads_to_kind(*path, true) && (has_no_rules(owner) || applied is Ok
            && obeys(*after, kind_for(owner, AclKind::Directory))),
        file is Ok <==> leads_to_kind(*path, false) && (has_no_rules(owner) || applied is Ok
            && obeys(*after, kind_for(owner, AclKind::Manifest))),
{
    lemma_kind(*path, true);
    lemma_kind(*path, false);
    lemma_obeys(owner, *after, store::directory_kind(owner));
    lemma_obeys(owner, *after, store::manifest_kind(owner));
}

// ---------------------------------------------------------------------------
// Directories above
// ---------------------------------------------------------------------------

/// Whether what is above a manifest of the system is safe: a directory that the worker
/// does not own and that nobody but the system can replace.
pub open spec fn is_above_system(facts: ObjectFacts) -> bool {
    &&& leads_to_kind(facts.path, true)
    &&& told(facts.descriptor)
    &&& !facts.descriptor.owner.worker
    &&& closed_to_strangers(facts.descriptor.entries->Ok_0@, 0x500d_0040, false)
}

/// Whether what is above a user's state is safe: a directory of the user, or of the
/// system, that nobody else can replace.
pub open spec fn is_above_user(facts: ObjectFacts, of_user: bool) -> bool {
    &&& leads_to_kind(facts.path, true)
    &&& told(facts.descriptor)
    &&& if of_user {
        facts.descriptor.owner.worker
    } else {
        !facts.descriptor.owner.worker && (facts.descriptor.owner.system
            || facts.descriptor.owner.administrators || facts.descriptor.owner.trusted_installer)
    }
    &&& closed_to_strangers(facts.descriptor.entries->Ok_0@, 0x500d_0040, true)
}

/// Whether all from a number on are safe above the system's manifests.
pub open spec fn all_above_system(chain: Seq<ObjectFacts>, from: nat) -> bool {
    forall|i: int| from <= i < chain.len() ==> is_above_system(#[trigger] chain[i])
}

proof fn lemma_system_chain(chain: Seq<ObjectFacts>, from: nat)
    ensures
        store::system_chain(chain, from) is Ok <==> all_above_system(chain, from),
    decreases chain.len() - from,
{
    if from < chain.len() {
        let facts = chain[from as int];
        lemma_kind(facts.path, true);
        lemma_manifest_ancestor(
            &facts.descriptor,
            descriptor::manifest_ancestor_verdict(facts.descriptor),
        );
        lemma_system_chain(chain, from + 1);
        if all_above_system(chain, from + 1) && is_above_system(facts) {
            assert forall|i: int| from <= i < chain.len() implies is_above_system(
                #[trigger] chain[i],
            ) by {}
        }
    }
}

/// Whether all from a number on are directories.
pub open spec fn all_directories(chain: Seq<ObjectFacts>, from: nat) -> bool {
    forall|i: int| from <= i < chain.len() ==> leads_to_kind((#[trigger] chain[i]).path, true)
}

proof fn lemma_plain_chain(chain: Seq<ObjectFacts>, from: nat)
    ensures
        store::plain_chain(chain, from) is Ok <==> all_directories(chain, from),
    decreases chain.len() - from,
{
    if from < chain.len() {
        lemma_kind(chain[from as int].path, true);
        lemma_plain_chain(chain, from + 1);
        if all_directories(chain, from + 1) && leads_to_kind(chain[from as int].path, true) {
            assert forall|i: int| from <= i < chain.len() implies leads_to_kind(
                (#[trigger] chain[i]).path,
                true,
            ) by {}
        }
    }
}

/// Whether all from one number to another are the user's.
pub open spec fn all_of_user(chain: Seq<ObjectFacts>, from: nat, end: nat) -> bool {
    forall|i: int| from <= i < end ==> is_above_user(#[trigger] chain[i], true)
}

proof fn lemma_above_user(facts: ObjectFacts)
    ensures
        descriptor::kind_verdict(facts.path, true) is Ok && descriptor::owner_above_user_state(
            facts.descriptor,
        ) == Ok::<_, PlatformError>(UserAncestorOwner::User) <==> is_above_user(facts, true),
        descriptor::kind_verdict(facts.path, true) is Ok && descriptor::owner_above_user_state(
            facts.descriptor,
        ) == Ok::<_, PlatformError>(UserAncestorOwner::TrustedSystem) <==> is_above_user(
            facts,
            false,
        ),
        descriptor::owner_above_user_state(facts.descriptor) != Ok::<_, PlatformError>(
            UserAncestorOwner::Unexpected,
        ),
{
    lemma_kind(facts.path, true);
    lemma_user_ancestor(
        &facts.descriptor,
        descriptor::owner_above_user_state(facts.descriptor),
    );
}

proof fn lemma_user_between(chain: Seq<ObjectFacts>, from: nat, end: nat)
    ensures
        store::user_between(chain, from, end) is Ok <==> all_of_user(chain, from, end),
    decreases end - from,
{
    if from < end {
        lemma_above_user(chain[from as int]);
        lemma_user_between(chain, from + 1, end);
        if all_of_user(chain, from + 1, end) && is_above_user(chain[from as int], true) {
            assert forall|i: int| from <= i < end implies is_above_user(
                #[trigger] chain[i],
                true,
            ) by {}
        }
    }
}

/// Whether those from a number on are the user's up to some turn, and the system's from
/// there on.
pub open spec fn turns_once(chain: Seq<ObjectFacts>, from: nat, turn: nat) -> bool {
    &&& from <= turn <= chain.len()
    &&& forall|i: int| from <= i < turn ==> is_above_user(#[trigger] chain[i], true)
    &&& forall|i: int| turn <= i < chain.len() ==> is_above_user(#[trigger] chain[i], false)
}

proof fn lemma_user_above(chain: Seq<ObjectFacts>, from: nat)
    requires
        from <= chain.len(),
    ensures
        store::user_above(chain, from, true) is Ok <==> turns_once(chain, from, from),
        store::user_above(chain, from, false) is Ok <==> exists|turn: nat| #[trigger]
            turns_once(chain, from, turn),
    decreases chain.len() - from,
{
    if from < chain.len() {
        let facts = chain[from as int];
        lemma_above_user(facts);
        lemma_user_above(chain, from + 1);
        if store::user_above(chain, from, true) is Ok {
            assert forall|i: int| from <= i < chain.len() implies is_above_user(
                #[trigger] chain[i],
                false,
            ) by {}
            assert(turns_once(chain, from, from));
        }
        if turns_once(chain, from, from) {
            assert(is_above_user(chain[from as int], false));
            assert(turns_once(chain, from + 1, from + 1));
        }
        if store::user_above(chain, from, false) is Ok {
            if is_above_user(facts, true) {
                let turn = choose|turn: nat| #[trigger] turns_once(chain, from + 1, turn);
                assert forall|i: int| from <= i < turn implies is_above_user(
                    #[trigger] chain[i],
                    true,
                ) by {}
                assert(turns_once(chain, from, turn));
            } else {
                assert(turns_once(chain, from + 1, from + 1));
                assert forall|i: int| from <= i < chain.len() implies is_above_user(
                    #[trigger] chain[i],
                    false,
                ) by {}
                assert(turns_once(chain, from, from));
            }
        }
        if exists|turn: nat| #[trigger] turns_once(chain, from, turn) {
            let turn = choose|turn: nat| #[trigger] turns_once(chain, from, turn);
            if turn == from {
                assert(is_above_user(chain[from as int], false));
                assert(turns_once(chain, from + 1, from + 1));
            } else {
                assert(is_above_user(chain[from as int], true));
                assert(turns_once(chain, from + 1, turn));
            }
        }
    } else {
        assert(turns_once(chain, from, from));
    }
}

/// Whether a user's directory, the first of a chain, and all above it are safe: all up to
/// the root of the user's state are the user's, and above it the owner changes once at
/// most, from the user to the system.
pub open spec fn safe_for_user(chain: Seq<ObjectFacts>, depth: nat) -> bool {
    &&& leads_to_kind(chain[0].path, true)
    &&& all_of_user(chain, 1, depth)
    &&& is_above_user(chain[depth as int], true)
    &&& exists|turn: nat| #[trigger] turns_once(chain, depth + 1, turn)
}

proof fn lemma_safe_for_user(chain: Seq<ObjectFacts>, depth: nat)
    requires
        depth < chain.len(),
    ensures
        store::user_chain(chain, Some(depth)) is Ok <==> safe_for_user(chain, depth),
{
    lemma_kind(chain[0].path, true);
    lemma_user_between(chain, 1, depth);
    lemma_above_user(chain[depth as int]);
    lemma_user_above(chain, depth + 1);
}

/// A user's directory is accepted exactly where it and all above it are safe; where the
/// root of the user's state is not above it, never.
pub proof fn user_directories_are_safe_all_the_way_up(
    chain: &[ObjectFacts],
    depth: Option<usize>,
    result: Result<(), PlatformError>,
)
    requires
        chain@.len() > 0,
        depth matches Some(depth) ==> depth < chain@.len(),
        call_ensures(verify_user_manifest_ancestors, (chain, depth), result),
    ensures
        result is Ok <==> depth is Some && safe_for_user(chain@, depth->0 as nat),
{
    if let Some(depth) = depth {
        lemma_safe_for_user(chain@, depth as nat);
    }
}

/// Whether a directory of manifests and all above it are safe, in its root.
pub open spec fn safe_in_root(
    directory: PathModel,
    owner: ManifestOwner,
    root: PathModel,
    chain: Seq<ObjectFacts>,
) -> bool {
    if owner == ManifestOwner::System {
        &&& directory == root
        &&& leads_to_kind(chain[0].path, true)
        &&& all_above_system(chain, 1)
    } else {
        &&& directory.prefix == root.prefix
        &&& root.components.len() <= directory.components.len()
        &&& directory.components.take(root.components.len() as int) == root.components
        &&& if owner == ManifestOwner::User {
            safe_for_user(
                chain,
                (directory.components.len() - root.components.len()) as nat,
            )
        } else {
            leads_to_kind(chain[0].path, true)
        }
    }
}

proof fn lemma_safe_in_root(
    directory: PathModel,
    owner: ManifestOwner,
    root: PathModel,
    chain: Seq<ObjectFacts>,
)
    requires
        chain.len() == directory.components.len() + 1,
    ensures
        store::ancestors_verdict(directory, owner, root, chain) is Ok <==> safe_in_root(
            directory,
            owner,
            root,
            chain,
        ),
{
    lemma_kind(chain[0].path, true);
    lemma_system_chain(chain, 1);
    if layout::lies_below(directory, root) {
        lemma_safe_for_user(
            chain,
            (directory.components.len() - root.components.len()) as nat,
        );
    }
}

/// A directory of manifests is accepted exactly where it is in its root, the system's the
/// root itself, and it and all above it are safe.
pub proof fn manifest_directories_are_safe_in_their_root(
    directory: &WorkerPath,
    owner: ManifestOwner,
    root: &WorkerPath,
    chain: &[ObjectFacts],
    result: Result<(), PlatformError>,
)
    requires
        chain@.len() == directory@.components.len() + 1,
        call_ensures(verify_manifest_ancestors, (directory, owner, root, chain), result),
    ensures
        result is Ok <==> safe_in_root(directory@, owner, root@, chain@),
{
    lemma_safe_in_root(directory@, owner, root@, chain@);
}

/// A directory in which manifests are to be placed is accepted exactly where it and all
/// above it are safe for their owner.
pub proof fn places_of_manifests_are_safe(
    owner: ManifestOwner,
    chain: &[ObjectFacts],
    result: Result<(), PlatformError>,
)
    requires
        chain@.len() > 0,
        call_ensures(verify_manifest_parent_chain, (owner, chain), result),
    ensures
        result is Ok <==> match owner {
            ManifestOwner::User => is_above_user(chain@[0], true) && exists|turn: nat| #[trigger]
                turns_once(chain@, 1, turn),
            ManifestOwner::System => all_above_system(chain@, 0),
            _ => all_directories(chain@, 0),
        },
{
    lemma_safe_for_user(chain@, 0);
    lemma_plain_chain(chain@, 0);
    lemma_system_chain(chain@, 0);
    assert(all_of_user(chain@, 1, 0));
}

/// Whether a manifest's directory and all above it are safe, and the directory has its
/// rules.
pub open spec fn safe_parent(
    path: PathModel,
    owner: ManifestOwner,
    root: PathModel,
    chain: Seq<ObjectFacts>,
) -> bool {
    &&& path.components.len() > 0
    &&& leads_to_kind(chain[0].path, true)
    &&& safe_in_root(
        PathModel { prefix: path.prefix, components: path.components.drop_last() },
        owner,
        root,
        chain,
    )
    &&& obeys_for(owner, chain[0].descriptor, kind_for(owner, AclKind::Directory))
}

proof fn lemma_parent(path: PathModel)
    requires
        path.components.len() > 0,
    ensures
        layout::shortened(path, (path.components.len() - 1) as nat) == (PathModel {
            prefix: path.prefix,
            components: path.components.drop_last(),
        }),
{
    assert(path.components.take(path.components.len() - 1) =~= path.components.drop_last());
}

/// A manifest is accepted exactly where it is a file, its directory and all above that
/// are safe, and both have their rules; for the running process, where both are there.
pub proof fn manifests_stand_in_safe_directories(
    path: &WorkerPath,
    owner: ManifestOwner,
    root: &WorkerPath,
    file: &ObjectFacts,
    chain: &[ObjectFacts],
    result: Result<(), PlatformError>,
)
    requires
        chain@.len() == path@.components.len(),
        call_ensures(verify_manifest_security, (path, owner, root, file, chain), result),
    ensures
        result is Ok <==> {
            &&& leads_to_kind(file.path, false)
            &&& path@.components.len() > 0
            &&& leads_to_kind(chain@[0].path, true)
            &&& has_no_rules(owner) || safe_parent(path@, owner, root@, chain@) && obeys(
                file.descriptor,
                kind_for(owner, AclKind::Manifest),
            )
        },
{
    lemma_kind(file.path, false);
    if path@.components.len() > 0 {
        lemma_parent(path@);
        let parent = layout::shortened(path@, (path@.components.len() - 1) as nat);
        lemma_kind(chain@[0].path, true);
        lemma_safe_in_root(parent, owner, root@, chain@);
        lemma_obeys(owner, chain@[0].descriptor, store::directory_kind(owner));
        lemma_obeys(owner, file.descriptor, store::manifest_kind(owner));
    }
}

/// A manifest is opened and read exactly where its directory and all above that are safe
/// before and after, and what was opened is a regular file with its rules.
pub proof fn manifests_are_read_from_safe_directories(
    path: &WorkerPath,
    owner: ManifestOwner,
    root: &WorkerPath,
    before: &[ObjectFacts],
    file: &HandleFacts,
    after: &[ObjectFacts],
    checked: Result<(), PlatformError>,
    result: Result<(), PlatformError>,
)
    requires
        before@.len() == path@.components.len(),
        after@.len() == path@.components.len(),
        call_ensures(check_manifest_parent, (path, owner, root, before), checked),
        call_ensures(
            open_verified_manifest_file_for_read,
            (path, owner, root, before, file, after),
            result,
        ),
    ensures
        checked is Ok <==> safe_parent(path@, owner, root@, before@),
        result is Ok <==> {
            &&& safe_parent(path@, owner, root@, before@)
            &&& file.handle matches Ok(information) && information.attributes & 0x410 == 0
            &&& has_no_rules(owner) || obeys(
                file.descriptor,
                kind_for(owner, AclKind::Manifest),
            ) && safe_in_root(
                PathModel { prefix: path@.prefix, components: path@.components.drop_last() },
                owner,
                root@,
                after@,
            ) && obeys(after@[0].descriptor, kind_for(owner, AclKind::Directory))
        },
{
    lemma_attributes();
    if path@.components.len() > 0 {
        lemma_parent(path@);
        let parent = layout::shortened(path@, (path@.components.len() - 1) as nat);
        lemma_kind(before@[0].path, true);
        lemma_safe_in_root(parent, owner, root@, before@);
        lemma_safe_in_root(parent, owner, root@, after@);
        lemma_obeys(owner, before@[0].descriptor, store::directory_kind(owner));
        lemma_obeys(owner, after@[0].descriptor, store::directory_kind(owner));
        lemma_obeys(owner, file.descriptor, store::manifest_kind(owner));
    }
}

// ---------------------------------------------------------------------------
// Publication
// ---------------------------------------------------------------------------

/// A directory is staged exactly where it was made, and stands where it was made.
pub proof fn staged_directories_stand_where_they_were_made(
    path: &WorkerPath,
    created: Result<(), PlatformError>,
    result: Result<PrivateManifestStagingDirectory, PlatformError>,
)
    requires
        call_ensures(create_private_manifest_staging_directory, (path, created), result),
    ensures
        result is Ok <==> created is Ok,
        result matches Ok(staged) ==> staged@ == path@,
        created matches Err(failure) ==> result == Err::<PrivateManifestStagingDirectory, _>(
            failure,
        ),
{
}

/// A directory is published exactly where it was one and could be given its name. A name
/// that is taken is reported as such.
pub proof fn directories_are_published_under_free_names(
    staging: &PathFacts,
    moved: Result<(), PlatformError>,
    exists_already: bool,
    result: Result<(), PlatformError>,
)
    requires
        call_ensures(publish_manifest_directory, (staging, moved, exists_already), result),
    ensures
        result is Ok <==> leads_to_kind(*staging, true) && moved is Ok,
        leads_to_kind(*staging, true) && moved is Err && exists_already ==> result->Err_0.spec_kind()
            == ErrorKind::AlreadyExists,
        leads_to_kind(*staging, true) && moved is Err && !exists_already ==> result == moved,
{
    lemma_kind(*staging, true);
}

/// A private file is begun exactly where its path has a name, it was made, and what was
/// made is a regular file with its rules; it is then that file, at that path.
pub proof fn private_files_are_begun_as_made(
    path: &WorkerPath,
    owner: ManifestOwner,
    created: Result<(), PlatformError>,
    facts: &HandleFacts,
    result: Result<PrivatePublicationFile, PlatformError>,
)
    requires
        call_ensures(create_private_publication_file, (path, owner, created, facts), result),
    ensures
        result is Ok <==> path@.components.len() > 0 && created is Ok && (facts.handle matches Ok(
            information,
        ) && information.attributes & 0x410 == 0) && obeys_for(
            owner,
            facts.descriptor,
            kind_for(owner, AclKind::Lock),
        ),
        result matches Ok(file) ==> file@.path == path@ && file@.owner == owner && is_file(
            facts.handle,
            file@.identity,
        ),
{
    lemma_attributes();
    lemma_handle(owner, *facts);
}

/// A private file is complete exactly where it reached the disk, the open file and the
/// file at its path are the one that was begun, both with their rules, and what is read
/// from its start is exactly what it should hold.
pub proof fn complete_files_hold_what_they_should(
    file: PrivatePublicationFile,
    completion: &Completion,
    expected: &[u8],
    result: Result<CompletePrivatePublication, PlatformError>,
)
    requires
        call_ensures(
            PrivatePublicationFile::complete_exact,
            (file, completion, expected),
            result,
        ),
    ensures
        result is Ok <==> {
            &&& completion.flushed is Ok && completion.synced is Ok && completion.rewound is Ok
            &&& is_file(completion.open.handle, file@.identity)
            &&& obeys_for(
                file@.owner,
                completion.open.descriptor,
                kind_for(file@.owner, AclKind::Lock),
            )
            &&& is_file(completion.named.handle, file@.identity)
            &&& obeys_for(
                file@.owner,
                completion.named.descriptor,
                kind_for(file@.owner, AclKind::Lock),
            )
            &&& completion.read matches Ok(bytes) && bytes@ == expected@
        },
        result matches Ok(complete) ==> complete@ == file@,
{
    lemma_attributes();
    let owner = file@.owner;
    let identity = file@.identity;
    lemma_handle(owner, completion.open);
    lemma_expected(owner, completion.named, identity);
    let all = seq![
        completion.flushed,
        completion.synced,
        publication::handle_verdict(owner, completion.open),
        if publication::identified(completion.open.handle->Ok_0) == identity {
            Ok(())
        } else {
            Err(error::denied("private publication handle identity changed"))
        },
        publication::expected_file_verdict(owner, completion.named, identity),
        completion.rewound,
    ];
    lemma_first_refusal(all);
    assert(all.len() == 6);
    assert(all[0] == completion.flushed && all[1] == completion.synced);
    assert(all[2] == publication::handle_verdict(owner, completion.open));
    assert(all[3] is Ok <==> publication::identified(completion.open.handle->Ok_0) == identity);
    assert(all[4] == publication::expected_file_verdict(owner, completion.named, identity));
    assert(all[5] == completion.rewound);
    if all[0] is Ok && all[1] is Ok && all[2] is Ok && all[3] is Ok && all[4] is Ok && all[5]
        is Ok {
        assert forall|i: int| 0 <= i < all.len() implies (#[trigger] all[i]) is Ok by {}
    }
}

/// Whether a private file may be given its name: the open file is the expected one, and
/// so is the file at its first path, with its rules.
pub open spec fn may_be_named(
    owner: ManifestOwner,
    expected: PrivateFileIdentity,
    open: Result<FileInformation, PlatformError>,
    temporary: HandleFacts,
) -> bool {
    &&& is_file(open, expected)
    &&& is_file(temporary.handle, expected)
    &&& obeys_for(owner, temporary.descriptor, kind_for(owner, AclKind::Lock))
}

proof fn lemma_may_be_named(
    owner: ManifestOwner,
    expected: PrivateFileIdentity,
    open: Result<FileInformation, PlatformError>,
    temporary: HandleFacts,
)
    ensures
        publication::nameable(owner, expected, open, temporary) is Ok <==> may_be_named(
            owner,
            expected,
            open,
            temporary,
        ),
{
    lemma_is_file(
        open,
        "private publication handle is not a regular non-reparse file",
        expected,
    );
    lemma_expected(owner, temporary, expected);
}

/// A private file got its name exactly where it might be given it, the name was given,
/// and the file under it is the expected one with its rules. A name that is taken is
/// reported as such, and nothing is replaced.
pub proof fn private_files_are_named_without_replacing(
    owner: ManifestOwner,
    expected: PrivateFileIdentity,
    naming: &Naming,
    may: Result<(), PlatformError>,
    result: Result<(), PlatformError>,
)
    requires
        call_ensures(
            may_name_private_file,
            (owner, expected, &naming.open, &naming.temporary),
            may,
        ),
        call_ensures(publish_private_file_no_replace, (owner, expected, naming), result),
    ensures
        may is Ok <==> may_be_named(owner, expected, naming.open, naming.temporary),
        result is Ok <==> may_be_named(owner, expected, naming.open, naming.temporary)
            && naming.moved is Ok && is_file(naming.destination.handle, expected) && obeys_for(
            owner,
            naming.destination.descriptor,
            kind_for(owner, AclKind::Lock),
        ),
        may is Ok && naming.moved is Err && naming.destination_exists ==> result->Err_0.spec_kind()
            == ErrorKind::AlreadyExists,
{
    lemma_may_be_named(owner, expected, naming.open, naming.temporary);
    lemma_expected(owner, naming.destination, expected);
}

/// Whether two paths are names in one directory.
pub open spec fn are_siblings(left: PathModel, right: PathModel) -> bool {
    &&& left.prefix == right.prefix
    &&& left.components.len() > 0 && right.components.len() > 0
    &&& left.components.drop_last() == right.components.drop_last()
}

/// A complete file is published exactly in the directory that it is in, where it may be
/// named and got its name; it is then that file under that name.
pub proof fn complete_files_are_published_beside_themselves(
    complete: CompletePrivatePublication,
    destination: &WorkerPath,
    naming: &Naming,
    may: Result<(), PlatformError>,
    result: Result<DurablePrivatePublication, PlatformError>,
)
    requires
        call_ensures(
            CompletePrivatePublication::may_publish,
            (&complete, destination, &naming.open, &naming.temporary),
            may,
        ),
        call_ensures(
            CompletePrivatePublication::publish_no_replace,
            (complete, destination, naming),
            result,
        ),
    ensures
        may is Ok <==> are_siblings(complete@.path, destination@) && may_be_named(
            complete@.owner,
            complete@.identity,
            naming.open,
            naming.temporary,
        ),
        result is Ok <==> may is Ok && naming.moved is Ok && is_file(
            naming.destination.handle,
            complete@.identity,
        ) && obeys_for(
            complete@.owner,
            naming.destination.descriptor,
            kind_for(complete@.owner, AclKind::Lock),
        ),
        result matches Ok(durable) ==> durable@.path == destination@ && durable@.identity
            == complete@.identity,
{
    lemma_may_be_named(complete@.owner, complete@.identity, naming.open, naming.temporary);
    lemma_expected(complete@.owner, naming.destination, complete@.identity);
    if complete@.path.components.len() > 0 {
        lemma_parent(complete@.path);
    }
    if destination@.components.len() > 0 {
        lemma_parent(destination@);
    }
}

} // verus!
