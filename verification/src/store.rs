//! Manifests and private files: what a directory chain, a directory and a file
//! must be like before anything in them is trusted.

use crate::acl;
use crate::acl::{validate_user_ancestor_owner_transition, AclKind, UserAncestorOwner};
use crate::descriptor;
use crate::descriptor::{
    inspect_ancestor_acl, inspect_security_descriptor, inspect_user_ancestor_acl, require_kind,
    PathFacts, SecurityFacts,
};
use crate::error;
use crate::error::{permission_denied, PlatformError};
use crate::layout;
use crate::layout::{PathModel, WorkerPath};
use vstd::prelude::*;

verus! {

/// Whom stored files belong to. The last two are for files of the running
/// process only, whose rules are those of its own directory.
#[derive(Clone, Copy, Debug, PartialEq, Eq, Structural)]
pub enum ManifestOwner {
    System,
    User,
    CurrentProcess,
    CurrentProcessWorker,
}

/// Whether files belong to the running process only.
pub open spec fn process_owned(owner: ManifestOwner) -> bool {
    owner is CurrentProcess || owner is CurrentProcessWorker
}

/// Whether files belong to the running process only.
pub fn is_test_owner(owner: ManifestOwner) -> (holds: bool)
    ensures
        holds == process_owned(owner),
{
    match owner {
        ManifestOwner::System | ManifestOwner::User => false,
        ManifestOwner::CurrentProcess | ManifestOwner::CurrentProcessWorker => true,
    }
}

/// Whether a directory's mode is private enough for files of this owner: a
/// user's directory is open to the user alone, any other to no other writer.
pub fn private_file_parent_mode_is_valid(owner: ManifestOwner, mode: u32) -> (valid: bool)
    ensures
        valid == if owner is User {
            mode & 0o777 == 0o700
        } else {
            mode & 0o022 == 0
        },
{
    match owner {
        ManifestOwner::User => mode & 0o777 == 0o700,
        _ => mode & 0o022 == 0,
    }
}

/// What was found out of an object: its path, and its descriptor.
#[derive(Debug)]
pub struct ObjectFacts {
    pub path: PathFacts,
    pub descriptor: SecurityFacts,
}

/// The rules of a directory of this owner.
pub open spec fn directory_kind(owner: ManifestOwner) -> AclKind {
    if owner is User {
        AclKind::UserDirectory
    } else {
        AclKind::Directory
    }
}

/// The rules of a manifest of this owner.
pub open spec fn manifest_kind(owner: ManifestOwner) -> AclKind {
    if owner is User {
        AclKind::UserFile
    } else {
        AclKind::Manifest
    }
}

/// The rules of a private file of this owner.
pub open spec fn private_kind(owner: ManifestOwner) -> AclKind {
    if owner is User {
        AclKind::UserFile
    } else {
        AclKind::Lock
    }
}

/// The rules of a directory that is not published yet.
pub open spec fn staging_kind(owner: ManifestOwner) -> AclKind {
    if owner is User {
        AclKind::UserDirectory
    } else {
        AclKind::Staging
    }
}

pub(crate) fn kind_of_directory(owner: ManifestOwner) -> (kind: AclKind)
    ensures
        kind == directory_kind(owner),
{
    match owner {
        ManifestOwner::User => AclKind::UserDirectory,
        _ => AclKind::Directory,
    }
}

pub(crate) fn kind_of_manifest(owner: ManifestOwner) -> (kind: AclKind)
    ensures
        kind == manifest_kind(owner),
{
    match owner {
        ManifestOwner::User => AclKind::UserFile,
        _ => AclKind::Manifest,
    }
}

pub(crate) fn kind_of_private_file(owner: ManifestOwner) -> (kind: AclKind)
    ensures
        kind == private_kind(owner),
{
    match owner {
        ManifestOwner::User => AclKind::UserFile,
        _ => AclKind::Lock,
    }
}

/// The verdict on the rules of an object; objects of the running process have
/// none.
pub open spec fn rules_verdict(owner: ManifestOwner, facts: SecurityFacts, kind: AclKind) -> Result<
    (),
    PlatformError,
> {
    if process_owned(owner) {
        Ok(())
    } else {
        descriptor::descriptor_verdict(facts, kind)
    }
}

pub(crate) fn judge_rules(owner: ManifestOwner, facts: &SecurityFacts, kind: AclKind) -> (result:
    Result<(), PlatformError>)
    ensures
        result == rules_verdict(owner, *facts, kind),
{
    if is_test_owner(owner) {
        return Ok(());
    }
    inspect_security_descriptor(facts, kind)
}

/// The verdict on an object of a kind, with the rules of that kind.
pub open spec fn object_verdict(
    owner: ManifestOwner,
    facts: ObjectFacts,
    directory: bool,
    kind: AclKind,
) -> Result<(), PlatformError> {
    match descriptor::kind_verdict(facts.path, directory) {
        Err(failure) => Err(failure),
        Ok(()) => rules_verdict(owner, facts.descriptor, kind),
    }
}

fn judge_object(owner: ManifestOwner, facts: &ObjectFacts, directory: bool, kind: AclKind) -> (result:
    Result<(), PlatformError>)
    ensures
        result == object_verdict(owner, *facts, directory, kind),
{
    match require_kind(&facts.path, directory) {
        Ok(()) => {},
        Err(failure) => {
            return Err(failure);
        },
    }
    judge_rules(owner, &facts.descriptor, kind)
}

// ---------------------------------------------------------------------------
// Chains of directories
// ---------------------------------------------------------------------------

/// The verdict on the directories above a manifest of the system, from number
/// `from` on.
pub open spec fn system_chain(chain: Seq<ObjectFacts>, from: nat) -> Result<(), PlatformError>
    decreases chain.len() - from,
{
    if from >= chain.len() {
        Ok(())
    } else {
        let facts = chain[from as int];
        match descriptor::kind_verdict(facts.path, true) {
            Err(failure) => Err(failure),
            Ok(()) => match descriptor::manifest_ancestor_verdict(facts.descriptor) {
                Err(failure) => Err(failure),
                Ok(()) => system_chain(chain, from + 1),
            },
        }
    }
}

fn judge_system_chain(chain: &[ObjectFacts], from: usize) -> (result: Result<(), PlatformError>)
    requires
        from <= chain@.len(),
    ensures
        result == system_chain(chain@, from as nat),
{
    let mut at: usize = from;
    while at < chain.len()
        invariant
            from <= at <= chain@.len(),
            system_chain(chain@, from as nat) == system_chain(chain@, at as nat),
        decreases chain@.len() - at,
    {
        match require_kind(&chain[at].path, true) {
            Ok(()) => {},
            Err(failure) => {
                return Err(failure);
            },
        }
        match inspect_ancestor_acl(&chain[at].descriptor) {
            Ok(()) => {},
            Err(failure) => {
                return Err(failure);
            },
        }
        at = at + 1;
    }
    Ok(())
}

/// The verdict on directories of the running process, from number `from` on.
pub open spec fn plain_chain(chain: Seq<ObjectFacts>, from: nat) -> Result<(), PlatformError>
    decreases chain.len() - from,
{
    if from >= chain.len() {
        Ok(())
    } else {
        match descriptor::kind_verdict(chain[from as int].path, true) {
            Err(failure) => Err(failure),
            Ok(()) => plain_chain(chain, from + 1),
        }
    }
}

fn judge_plain_chain(chain: &[ObjectFacts]) -> (result: Result<(), PlatformError>)
    ensures
        result == plain_chain(chain@, 0),
{
    let mut at: usize = 0;
    while at < chain.len()
        invariant
            at <= chain@.len(),
            plain_chain(chain@, 0) == plain_chain(chain@, at as nat),
        decreases chain@.len() - at,
    {
        match require_kind(&chain[at].path, true) {
            Ok(()) => {},
            Err(failure) => {
                return Err(failure);
            },
        }
        at = at + 1;
    }
    Ok(())
}

/// The verdict on the directories between a user's directory and the root of the
/// user's state: the user owns them all.
pub open spec fn user_between(chain: Seq<ObjectFacts>, from: nat, end: nat) -> Result<
    (),
    PlatformError,
>
    decreases end - from,
{
    if from >= end {
        Ok(())
    } else {
        let facts = chain[from as int];
        match descriptor::kind_verdict(facts.path, true) {
            Err(failure) => Err(failure),
            Ok(()) => match descriptor::owner_above_user_state(facts.descriptor) {
                Err(failure) => Err(failure),
                Ok(owner) => if owner == UserAncestorOwner::User {
                    user_between(chain, from + 1, end)
                } else {
                    Err(error::denied("user state directory is not owned by the current user"))
                },
            },
        }
    }
}

fn judge_user_between(chain: &[ObjectFacts], end: usize) -> (result: Result<(), PlatformError>)
    requires
        1 <= end <= chain@.len(),
    ensures
        result == user_between(chain@, 1, end as nat),
{
    let mut at: usize = 1;
    while at < end
        invariant
            1 <= at <= end <= chain@.len(),
            user_between(chain@, 1, end as nat) == user_between(chain@, at as nat, end as nat),
        decreases end - at,
    {
        match require_kind(&chain[at].path, true) {
            Ok(()) => {},
            Err(failure) => {
                return Err(failure);
            },
        }
        match inspect_user_ancestor_acl(&chain[at].descriptor) {
            Err(failure) => {
                return Err(failure);
            },
            Ok(UserAncestorOwner::User) => {},
            Ok(_) => {
                return Err(
                    permission_denied("user state directory is not owned by the current user"),
                );
            },
        }
        at = at + 1;
    }
    Ok(())
}

/// The verdict on the directories above the root of a user's state: those of the
/// user first, and behind the first one of the system only those of the system.
pub open spec fn user_above(chain: Seq<ObjectFacts>, from: nat, reached_system_owner: bool) -> Result<
    (),
    PlatformError,
>
    decreases chain.len() - from,
{
    if from >= chain.len() {
        Ok(())
    } else {
        let facts = chain[from as int];
        match descriptor::kind_verdict(facts.path, true) {
            Err(failure) => Err(failure),
            Ok(()) => match descriptor::owner_above_user_state(facts.descriptor) {
                Err(failure) => Err(failure),
                Ok(owner) => match acl::owner_transition(owner, reached_system_owner) {
                    Err(failure) => Err(failure),
                    Ok(reached) => user_above(chain, from + 1, reached),
                },
            },
        }
    }
}

fn judge_user_above(chain: &[ObjectFacts], from: usize) -> (result: Result<(), PlatformError>)
    requires
        from <= chain@.len(),
    ensures
        result == user_above(chain@, from as nat, false),
{
    let mut at: usize = from;
    let mut reached = false;
    while at < chain.len()
        invariant
            from <= at <= chain@.len(),
            user_above(chain@, from as nat, false) == user_above(chain@, at as nat, reached),
        decreases chain@.len() - at,
    {
        match require_kind(&chain[at].path, true) {
            Ok(()) => {},
            Err(failure) => {
                return Err(failure);
            },
        }
        let owner = match inspect_user_ancestor_acl(&chain[at].descriptor) {
            Ok(owner) => owner,
            Err(failure) => {
                return Err(failure);
            },
        };
        match validate_user_ancestor_owner_transition(owner, &mut reached) {
            Ok(()) => {},
            Err(failure) => {
                return Err(failure);
            },
        }
        at = at + 1;
    }
    Ok(())
}

/// The verdict on a user's directory, the first of `chain`, and all above it.
/// `depth` is the number of the root of the user's state in the chain, where it
/// is in it.
pub open spec fn user_chain(chain: Seq<ObjectFacts>, depth: Option<nat>) -> Result<
    (),
    PlatformError,
> {
    match descriptor::kind_verdict(chain[0].path, true) {
        Err(failure) => Err(failure),
        Ok(()) => {
            let end = match depth {
                Some(depth) => depth,
                None => chain.len(),
            };
            match user_between(chain, 1, end) {
                Err(failure) => Err(failure),
                Ok(()) => match depth {
                    None => Err(error::denied("manifest trusted root is not an ancestor")),
                    Some(depth) => {
                        let root = chain[depth as int];
                        match descriptor::kind_verdict(root.path, true) {
                            Err(failure) => Err(failure),
                            Ok(()) => match descriptor::owner_above_user_state(root.descriptor) {
                                Err(failure) => Err(failure),
                                Ok(owner) => if owner == UserAncestorOwner::User {
                                    user_above(chain, depth + 1, false)
                                } else {
                                    Err(
                                        error::denied(
                                            "user state root is not owned by the current user",
                                        ),
                                    )
                                },
                            },
                        }
                    },
                },
            }
        },
    }
}

/// Judges a user's directory, the first of `chain`, and all above it.
pub fn verify_user_manifest_ancestors(chain: &[ObjectFacts], depth: Option<usize>) -> (result:
    Result<(), PlatformError>)
    requires
        chain@.len() > 0,
        depth matches Some(depth) ==> depth < chain@.len(),
    ensures
        result == user_chain(
            chain@,
            match depth {
                Some(depth) => Some(depth as nat),
                None => None,
            },
        ),
{
    match require_kind(&chain[0].path, true) {
        Ok(()) => {},
        Err(failure) => {
            return Err(failure);
        },
    }
    let end: usize = match depth {
        Some(depth) => depth,
        None => chain.len(),
    };
    if end >= 1 {
        match judge_user_between(chain, end) {
            Ok(()) => {},
            Err(failure) => {
                return Err(failure);
            },
        }
    }
    let root: usize = match depth {
        Some(depth) => depth,
        None => {
            return Err(permission_denied("manifest trusted root is not an ancestor"));
        },
    };
    match require_kind(&chain[root].path, true) {
        Ok(()) => {},
        Err(failure) => {
            return Err(failure);
        },
    }
    match inspect_user_ancestor_acl(&chain[root].descriptor) {
        Err(failure) => Err(failure),
        Ok(UserAncestorOwner::User) => judge_user_above(chain, root + 1),
        Ok(_) => Err(permission_denied("user state root is not owned by the current user")),
    }
}

/// Whether a chain describes a directory and everything above it.
pub open spec fn chain_of(directory: PathModel, chain: Seq<ObjectFacts>) -> bool {
    chain.len() == directory.components.len() + 1
}

/// The verdict on a directory of manifests and everything above it. Manifests of
/// the system stand directly in their root, those of a user anywhere below it.
pub open spec fn ancestors_verdict(
    directory: PathModel,
    owner: ManifestOwner,
    trusted_root: PathModel,
    chain: Seq<ObjectFacts>,
) -> Result<(), PlatformError> {
    let inside = if owner is System {
        directory == trusted_root
    } else {
        layout::lies_below(directory, trusted_root)
    };
    if !inside {
        Err(error::denied("manifest directory is outside its trusted root"))
    } else if process_owned(owner) {
        descriptor::kind_verdict(chain[0].path, true)
    } else if owner is User {
        user_chain(
            chain,
            Some((directory.components.len() - trusted_root.components.len()) as nat),
        )
    } else {
        match descriptor::kind_verdict(chain[0].path, true) {
            Err(failure) => Err(failure),
            Ok(()) => system_chain(chain, 1),
        }
    }
}

/// Judges a directory of manifests and everything above it. `chain` describes
/// the directory and what is above it, the directory first.
pub fn verify_manifest_ancestors(
    directory: &WorkerPath,
    owner: ManifestOwner,
    trusted_root: &WorkerPath,
    chain: &[ObjectFacts],
) -> (result: Result<(), PlatformError>)
    requires
        chain_of(directory@, chain@),
    ensures
        result == ancestors_verdict(directory@, owner, trusted_root@, chain@),
{
    assert(directory@.components.len() == directory.components@.len());
    assert(trusted_root@.components.len() == trusted_root.components@.len());
    let inside = match owner {
        ManifestOwner::System => directory.same_as(trusted_root),
        _ => directory.starts_with(trusted_root),
    };
    if !inside {
        return Err(permission_denied("manifest directory is outside its trusted root"));
    }
    match owner {
        ManifestOwner::User => {
            let depth: usize = directory.components.len() - trusted_root.components.len();
            verify_user_manifest_ancestors(chain, Some(depth))
        },
        ManifestOwner::System => {
            match require_kind(&chain[0].path, true) {
                Ok(()) => judge_system_chain(chain, 1),
                Err(failure) => Err(failure),
            }
        },
        _ => require_kind(&chain[0].path, true),
    }
}

/// The verdict on a directory in which manifests are to be placed, and
/// everything above it.
pub open spec fn parent_chain_verdict(owner: ManifestOwner, chain: Seq<ObjectFacts>) -> Result<
    (),
    PlatformError,
> {
    if owner is User {
        user_chain(chain, Some(0))
    } else if process_owned(owner) {
        plain_chain(chain, 0)
    } else {
        system_chain(chain, 0)
    }
}

/// Judges a directory in which manifests are to be placed, and everything above
/// it.
pub fn verify_manifest_parent_chain(owner: ManifestOwner, chain: &[ObjectFacts]) -> (result: Result<
    (),
    PlatformError,
>)
    requires
        chain@.len() > 0,
    ensures
        result == parent_chain_verdict(owner, chain@),
{
    match owner {
        ManifestOwner::User => verify_user_manifest_ancestors(chain, Some(0)),
        ManifestOwner::System => judge_system_chain(chain, 0),
        _ => judge_plain_chain(chain),
    }
}

/// Whether the owners from number `from` on change once at most, from the user
/// to the system.
pub open spec fn owners_change_once(chain: Seq<ObjectFacts>, from: nat, turn: nat) -> bool {
    &&& from <= turn <= chain.len()
    &&& forall|i: int|
        from <= i < turn ==> descriptor::owner_above_user_state(
            (#[trigger] chain[i]).descriptor,
        ) == Ok::<_, PlatformError>(UserAncestorOwner::User)
    &&& forall|i: int|
        turn <= i < chain.len() ==> descriptor::owner_above_user_state(
            (#[trigger] chain[i]).descriptor,
        ) == Ok::<_, PlatformError>(UserAncestorOwner::TrustedSystem)
}

proof fn lemma_system_above(chain: Seq<ObjectFacts>, from: nat)
    requires
        from <= chain.len(),
        user_above(chain, from, true) is Ok,
    ensures
        owners_change_once(chain, from, from),
    decreases chain.len() - from,
{
    if from < chain.len() {
        lemma_system_above(chain, from + 1);
    }
}

/// Above the root of a user's state the owner changes once at most, from the user
/// to the system: no directory of the user stands above one of the system.
pub proof fn owners_above_user_state_change_once(chain: Seq<ObjectFacts>, from: nat)
    requires
        from <= chain.len(),
        user_above(chain, from, false) is Ok,
    ensures
        exists|turn: nat| owners_change_once(chain, from, turn),
    decreases chain.len() - from,
{
    if from < chain.len() {
        let owner = descriptor::owner_above_user_state(chain[from as int].descriptor);
        if owner == Ok::<_, PlatformError>(UserAncestorOwner::TrustedSystem) {
            lemma_system_above(chain, from + 1);
            assert(owners_change_once(chain, from, from));
        } else {
            owners_above_user_state_change_once(chain, from + 1);
            let next = from + 1;
            let turn = choose|turn: nat| owners_change_once(chain, next, turn);
            assert(owners_change_once(chain, from, turn));
        }
    } else {
        assert(owners_change_once(chain, from, from));
    }
}

// ---------------------------------------------------------------------------
// Directories and files
// ---------------------------------------------------------------------------

/// Judges a directory of manifests.
pub fn verify_manifest_directory_security(owner: ManifestOwner, facts: &ObjectFacts) -> (result:
    Result<(), PlatformError>)
    ensures
        result == object_verdict(owner, *facts, true, directory_kind(owner)),
{
    judge_object(owner, facts, true, kind_of_directory(owner))
}

/// Judges whether a manifest is a file at all.
pub fn verify_manifest_file_target(path: &PathFacts) -> (result: Result<(), PlatformError>)
    ensures
        result == descriptor::kind_verdict(*path, false),
{
    require_kind(path, false)
}

/// Judges a private file.
pub fn verify_private_file_security(owner: ManifestOwner, facts: &ObjectFacts) -> (result: Result<
    (),
    PlatformError,
>)
    ensures
        result == object_verdict(owner, *facts, false, private_kind(owner)),
{
    judge_object(owner, facts, false, kind_of_private_file(owner))
}

/// The verdict on a manifest: a file in a directory that is trusted with
/// everything above it.
pub open spec fn manifest_verdict(
    path: PathModel,
    owner: ManifestOwner,
    trusted_root: PathModel,
    file: ObjectFacts,
    chain: Seq<ObjectFacts>,
) -> Result<(), PlatformError> {
    match descriptor::kind_verdict(file.path, false) {
        Err(failure) => Err(failure),
        Ok(()) => if path.components.len() == 0 {
            Err(error::malformed("manifest path has no parent directory"))
        } else {
            let parent = layout::shortened(path, (path.components.len() - 1) as nat);
            match descriptor::kind_verdict(chain[0].path, true) {
                Err(failure) => Err(failure),
                Ok(()) => if process_owned(owner) {
                    Ok(())
                } else {
                    match ancestors_verdict(parent, owner, trusted_root, chain) {
                        Err(failure) => Err(failure),
                        Ok(()) => match rules_verdict(
                            owner,
                            chain[0].descriptor,
                            directory_kind(owner),
                        ) {
                            Err(failure) => Err(failure),
                            Ok(()) => rules_verdict(owner, file.descriptor, manifest_kind(owner)),
                        },
                    }
                },
            }
        },
    }
}

/// Judges a manifest. `chain` describes the directory that it is in and what is
/// above that, the directory first.
pub fn verify_manifest_security(
    path: &WorkerPath,
    owner: ManifestOwner,
    trusted_root: &WorkerPath,
    file: &ObjectFacts,
    chain: &[ObjectFacts],
) -> (result: Result<(), PlatformError>)
    requires
        chain@.len() == path@.components.len(),
    ensures
        result == manifest_verdict(path@, owner, trusted_root@, *file, chain@),
{
    match require_kind(&file.path, false) {
        Ok(()) => {},
        Err(failure) => {
            return Err(failure);
        },
    }
    assert(path@.components.len() == path.components@.len());
    if path.components.len() == 0 {
        return Err(error::invalid_data("manifest path has no parent directory"));
    }
    let parent = path.first(path.components.len() - 1);
    match require_kind(&chain[0].path, true) {
        Ok(()) => {},
        Err(failure) => {
            return Err(failure);
        },
    }
    if is_test_owner(owner) {
        return Ok(());
    }
    match verify_manifest_ancestors(&parent, owner, trusted_root, chain) {
        Ok(()) => {},
        Err(failure) => {
            return Err(failure);
        },
    }
    match judge_rules(owner, &chain[0].descriptor, kind_of_directory(owner)) {
        Ok(()) => {},
        Err(failure) => {
            return Err(failure);
        },
    }
    judge_rules(owner, &file.descriptor, kind_of_manifest(owner))
}

} // verus!
