//! Verdicts on security descriptors as the operating system reports them.

use crate::acl;
use crate::acl::{
    validate_acl_contract, validate_ancestor_entries, validate_authorization_ancestor_acl,
    validate_authorization_executable_acl, validate_user_ancestor_entries,
    validate_worker_ancestor_acl, validate_worker_creation_acl, AceInspection, AclInspection,
    AclKind, Principal, UserAncestorOwner, ACCESS_ALLOWED_ACE_TYPE, ACCESS_DENIED_ACE_TYPE,
    PARENT_TAKEOVER_ACCESS, SE_DACL_PROTECTED,
};
use crate::error;
use crate::error::{invalid_data, permission_denied, PlatformError};
use vstd::prelude::*;

verus! {

/// Which of the identities that matter a SID is equal to.
#[derive(Clone, Copy, Debug, PartialEq, Eq, Structural)]
pub struct SidRoles {
    pub system: bool,
    pub administrators: bool,
    pub trusted_installer: bool,
    pub worker: bool,
}

/// One entry of a list as the operating system reports it.
#[derive(Clone, Copy, Debug, PartialEq, Eq, Structural)]
pub struct RawAce {
    pub kind: u8,
    pub flags: u8,
    pub mask: u32,
    pub sid: SidRoles,
}

/// What the operating system reports of an object's security descriptor.
#[derive(Debug)]
pub struct SecurityFacts {
    /// Why the query failed or could not be made, where that is so.
    pub query: Result<(), PlatformError>,
    /// Whether the descriptor names an owner.
    pub has_owner: bool,
    /// Whether the descriptor carries a list.
    pub has_dacl: bool,
    /// Why the identities that matter could not be looked up.
    pub identity_failure: Option<PlatformError>,
    /// The control flags of the descriptor.
    pub control: Result<u16, PlatformError>,
    /// Who the owner is.
    pub owner: SidRoles,
    /// The entries of the list.
    pub entries: Result<Vec<RawAce>, PlatformError>,
}

/// Whom a SID stands for; without `with_installer` the installer is a stranger.
pub open spec fn role(sid: SidRoles, with_installer: bool) -> Principal {
    if sid.system {
        Principal::System
    } else if sid.administrators {
        Principal::Administrators
    } else if with_installer && sid.trusted_installer {
        Principal::TrustedInstaller
    } else if sid.worker {
        Principal::Worker
    } else {
        Principal::Unexpected
    }
}

/// How an entry is read. An entry of an unknown kind counts as a grant of
/// takeover to a stranger.
pub open spec fn read_entry(entry: RawAce, with_installer: bool) -> AceInspection {
    if entry.kind != ACCESS_ALLOWED_ACE_TYPE && entry.kind != ACCESS_DENIED_ACE_TYPE {
        AceInspection {
            principal: Principal::Unexpected,
            mask: PARENT_TAKEOVER_ACCESS,
            flags: entry.flags,
            allowed: true,
        }
    } else {
        AceInspection {
            principal: role(entry.sid, with_installer),
            mask: entry.mask,
            flags: entry.flags,
            allowed: entry.kind == ACCESS_ALLOWED_ACE_TYPE,
        }
    }
}

/// How the entries of a list are read.
pub open spec fn read_entries(entries: Seq<RawAce>, with_installer: bool) -> Seq<AceInspection> {
    entries.map_values(|entry: RawAce| read_entry(entry, with_installer))
}

/// Reads the entries of a list.
pub fn inspect_aces(entries: &[RawAce], with_installer: bool) -> (result: Vec<AceInspection>)
    ensures
        result@ == read_entries(entries@, with_installer),
{
    let mut result: Vec<AceInspection> = Vec::new();
    for i in 0..entries.len()
        invariant
            result@.len() == i,
            forall|j: int| 0 <= j < i ==> result@[j] == read_entry(entries@[j], with_installer),
    {
        let entry = entries[i];
        let sid = entry.sid;
        let principal = if sid.system {
            Principal::System
        } else if sid.administrators {
            Principal::Administrators
        } else if with_installer && sid.trusted_installer {
            Principal::TrustedInstaller
        } else if sid.worker {
            Principal::Worker
        } else {
            Principal::Unexpected
        };
        if entry.kind != ACCESS_ALLOWED_ACE_TYPE && entry.kind != ACCESS_DENIED_ACE_TYPE {
            result.push(
                AceInspection {
                    principal: Principal::Unexpected,
                    mask: PARENT_TAKEOVER_ACCESS,
                    flags: entry.flags,
                    allowed: true,
                },
            );
        } else {
            result.push(
                AceInspection {
                    principal,
                    mask: entry.mask,
                    flags: entry.flags,
                    allowed: entry.kind == ACCESS_ALLOWED_ACE_TYPE,
                },
            );
        }
    }
    assert(result@ =~= read_entries(entries@, with_installer));
    result
}

/// Why a descriptor cannot be judged: the query failed, the descriptor is
/// incomplete, or the identities are unknown.
pub open spec fn fault(facts: SecurityFacts, incomplete: &'static str) -> Option<PlatformError> {
    match facts.query {
        Err(failure) => Some(failure),
        Ok(()) => if !facts.has_owner || !facts.has_dacl {
            Some(error::denied(incomplete))
        } else {
            facts.identity_failure
        },
    }
}

fn find_fault(facts: &SecurityFacts, incomplete: &'static str) -> (result: Result<
    (),
    PlatformError,
>)
    ensures
        match result {
            Ok(()) => fault(*facts, incomplete) is None,
            Err(failure) => fault(*facts, incomplete) == Some(failure),
        },
{
    if let Err(failure) = facts.query {
        return Err(failure);
    }
    if !facts.has_owner || !facts.has_dacl {
        return Err(permission_denied(incomplete));
    }
    match facts.identity_failure {
        Some(failure) => Err(failure),
        None => Ok(()),
    }
}

/// What is decided of a descriptor that can be judged: `rule` of its entries,
/// unless they could not be read.
pub open spec fn judged(
    facts: SecurityFacts,
    incomplete: &'static str,
    with_installer: bool,
    rule: spec_fn(Seq<AceInspection>) -> Result<(), PlatformError>,
) -> Result<(), PlatformError> {
    match fault(facts, incomplete) {
        Some(failure) => Err(failure),
        None => match facts.entries {
            Err(failure) => Err(failure),
            Ok(entries) => rule(read_entries(entries@, with_installer)),
        },
    }
}

/// Whether the system owns the object.
pub open spec fn system_owned(owner: SidRoles) -> bool {
    owner.administrators || owner.system || owner.trusted_installer
}

/// Checks the descriptor of the executable that authorization runs.
pub fn inspect_authorization_executable_acl(facts: &SecurityFacts) -> (result: Result<
    (),
    PlatformError,
>)
    ensures
        result == judged(
            *facts,
            "setup authorization executable security descriptor is incomplete",
            true,
            |entries: Seq<AceInspection>|
                acl::authorization_executable_verdict(system_owned(facts.owner), entries),
        ),
{
    match find_fault(facts, "setup authorization executable security descriptor is incomplete") {
        Err(failure) => {
            return Err(failure);
        },
        Ok(()) => {},
    }
    let trusted = facts.owner.administrators || facts.owner.system || facts.owner.trusted_installer;
    match &facts.entries {
        Err(failure) => Err(*failure),
        Ok(entries) => validate_authorization_executable_acl(trusted, &inspect_aces(entries, true)),
    }
}

/// Checks the descriptor of a directory above that executable.
pub fn inspect_authorization_ancestor_acl(facts: &SecurityFacts) -> (result: Result<
    (),
    PlatformError,
>)
    ensures
        result == judged(
            *facts,
            "setup authorization ancestor security descriptor is incomplete",
            true,
            |entries: Seq<AceInspection>|
                acl::authorization_ancestor_verdict(system_owned(facts.owner), entries),
        ),
{
    match find_fault(facts, "setup authorization ancestor security descriptor is incomplete") {
        Err(failure) => {
            return Err(failure);
        },
        Ok(()) => {},
    }
    let trusted = facts.owner.administrators || facts.owner.system || facts.owner.trusted_installer;
    match &facts.entries {
        Err(failure) => Err(*failure),
        Ok(entries) => validate_authorization_ancestor_acl(trusted, &inspect_aces(entries, true)),
    }
}

/// The verdict on the descriptor of a directory above a manifest.
pub open spec fn manifest_ancestor_verdict(facts: SecurityFacts) -> Result<(), PlatformError> {
    judged(
        facts,
        "manifest ancestor security descriptor is incomplete",
        true,
        |entries: Seq<AceInspection>| acl::ancestor_verdict(facts.owner.worker, entries),
    )
}

/// Checks the descriptor of a directory above a manifest.
pub fn inspect_ancestor_acl(facts: &SecurityFacts) -> (result: Result<(), PlatformError>)
    ensures
        result == manifest_ancestor_verdict(*facts),
{
    match find_fault(facts, "manifest ancestor security descriptor is incomplete") {
        Err(failure) => {
            return Err(failure);
        },
        Ok(()) => {},
    }
    match &facts.entries {
        Err(failure) => Err(*failure),
        Ok(entries) => validate_ancestor_entries(facts.owner.worker, &inspect_aces(entries, true)),
    }
}

/// Who owns a directory above a user's state.
pub open spec fn user_ancestor_owner(owner: SidRoles) -> UserAncestorOwner {
    if owner.worker {
        UserAncestorOwner::User
    } else if system_owned(owner) {
        UserAncestorOwner::TrustedSystem
    } else {
        UserAncestorOwner::Unexpected
    }
}

/// Who owns a directory above a user's state, where its descriptor is accepted.
pub open spec fn owner_above_user_state(facts: SecurityFacts) -> Result<
    UserAncestorOwner,
    PlatformError,
> {
    match judged(
        facts,
        "user state ancestor security descriptor is incomplete",
        true,
        |entries: Seq<AceInspection>|
            acl::user_ancestor_verdict(user_ancestor_owner(facts.owner), entries),
    ) {
        Ok(()) => Ok(user_ancestor_owner(facts.owner)),
        Err(failure) => Err(failure),
    }
}

/// Checks the descriptor of a directory above a user's state, and tells who
/// owns it.
pub fn inspect_user_ancestor_acl(facts: &SecurityFacts) -> (result: Result<
    UserAncestorOwner,
    PlatformError,
>)
    ensures
        result == owner_above_user_state(*facts),
{
    match find_fault(facts, "user state ancestor security descriptor is incomplete") {
        Err(failure) => {
            return Err(failure);
        },
        Ok(()) => {},
    }
    let owner = if facts.owner.worker {
        UserAncestorOwner::User
    } else if facts.owner.system || facts.owner.administrators || facts.owner.trusted_installer {
        UserAncestorOwner::TrustedSystem
    } else {
        UserAncestorOwner::Unexpected
    };
    match &facts.entries {
        Err(failure) => Err(*failure),
        Ok(entries) => match validate_user_ancestor_entries(owner, &inspect_aces(entries, true)) {
            Err(failure) => Err(failure),
            Ok(()) => Ok(owner),
        },
    }
}

/// The verdict on the descriptor of a directory above a worker root.
pub open spec fn trusted_ancestor_verdict(
    facts: SecurityFacts,
    allow_untrusted_create_child: bool,
) -> Result<(), PlatformError> {
    judged(
        facts,
        "system worker root ancestor has an incomplete DACL",
        true,
        |entries: Seq<AceInspection>|
            acl::worker_ancestor_verdict(
                facts.owner.worker || system_owned(facts.owner),
                entries,
                allow_untrusted_create_child,
            ),
    )
}

/// Checks the descriptor of a directory above a worker root.
pub fn verify_trusted_worker_ancestor(
    facts: &SecurityFacts,
    allow_untrusted_create_child: bool,
) -> (result: Result<(), PlatformError>)
    ensures
        result == trusted_ancestor_verdict(*facts, allow_untrusted_create_child),
{
    match find_fault(facts, "system worker root ancestor has an incomplete DACL") {
        Err(failure) => {
            return Err(failure);
        },
        Ok(()) => {},
    }
    let trusted = facts.owner.worker || facts.owner.system || facts.owner.administrators
        || facts.owner.trusted_installer;
    match &facts.entries {
        Err(failure) => Err(*failure),
        Ok(entries) => validate_worker_ancestor_acl(
            trusted,
            &inspect_aces(entries, true),
            allow_untrusted_create_child,
        ),
    }
}

/// What is decided of a descriptor whose control flags matter too.
pub open spec fn judged_with_control(
    facts: SecurityFacts,
    incomplete: &'static str,
    rule: spec_fn(bool, Seq<AceInspection>) -> Result<(), PlatformError>,
) -> Result<(), PlatformError> {
    match fault(facts, incomplete) {
        Some(failure) => Err(failure),
        None => match facts.control {
            Err(failure) => Err(failure),
            Ok(control) => match facts.entries {
                Err(failure) => Err(failure),
                Ok(entries) => rule(
                    control & SE_DACL_PROTECTED != 0,
                    read_entries(entries@, false),
                ),
            },
        },
    }
}

fn inspection(
    facts: &SecurityFacts,
    incomplete: &'static str,
    owner_matches_policy: bool,
) -> (result: Result<AclInspection, PlatformError>)
    ensures
        match result {
            Ok(seen) => {
                &&& fault(*facts, incomplete) is None
                &&& facts.control is Ok
                &&& facts.entries is Ok
                &&& seen.owner_matches_policy == owner_matches_policy
                &&& seen.dacl_is_protected == (facts.control->Ok_0 & SE_DACL_PROTECTED != 0)
                &&& seen.entries@ == read_entries(facts.entries->Ok_0@, false)
            },
            Err(failure) => match fault(*facts, incomplete) {
                Some(other) => failure == other,
                None => match facts.control {
                    Err(other) => failure == other,
                    Ok(_) => facts.entries == Err::<Vec<RawAce>, PlatformError>(failure),
                },
            },
        },
{
    match find_fault(facts, incomplete) {
        Err(failure) => {
            return Err(failure);
        },
        Ok(()) => {},
    }
    let control: u16 = match &facts.control {
        Err(failure) => {
            return Err(*failure);
        },
        Ok(control) => *control,
    };
    match &facts.entries {
        Err(failure) => Err(*failure),
        Ok(entries) => Ok(
            AclInspection {
                owner_matches_policy,
                dacl_is_protected: control & SE_DACL_PROTECTED != 0,
                entries: inspect_aces(entries, false),
            },
        ),
    }
}

/// The verdict on the descriptor of a worker directory.
pub open spec fn worker_directory_verdict(facts: SecurityFacts, owner_is_management: bool) -> Result<
    (),
    PlatformError,
> {
    judged_with_control(
        facts,
        "new worker directory security descriptor is incomplete",
        |protected: bool, entries: Seq<AceInspection>|
            acl::creation_acl_verdict(facts.owner.worker, protected, entries, owner_is_management),
    )
}

/// Checks the descriptor of a worker directory, whose owner must be the
/// worker.
pub fn verify_worker_directory_security(
    facts: &SecurityFacts,
    owner_is_management: bool,
) -> (result: Result<(), PlatformError>)
    ensures
        result == worker_directory_verdict(*facts, owner_is_management),
{
    match inspection(
        facts,
        "new worker directory security descriptor is incomplete",
        facts.owner.worker,
    ) {
        Err(failure) => Err(failure),
        Ok(seen) => validate_worker_creation_acl(&seen, owner_is_management),
    }
}

/// Whether the owner is whom a list of this kind demands.
pub open spec fn owner_fits(owner: SidRoles, kind: AclKind) -> bool {
    match kind {
        AclKind::UserFile | AclKind::UserDirectory => owner.worker,
        _ => owner.administrators,
    }
}

/// The verdict on the descriptor of an object of this kind.
pub open spec fn descriptor_verdict(facts: SecurityFacts, kind: AclKind) -> Result<
    (),
    PlatformError,
> {
    judged_with_control(
        facts,
        "manifest security descriptor is incomplete",
        |protected: bool, entries: Seq<AceInspection>|
            acl::acl_verdict(owner_fits(facts.owner, kind), protected, entries, kind),
    )
}

/// Checks the descriptor of an object of this kind.
pub fn inspect_security_descriptor(facts: &SecurityFacts, kind: AclKind) -> (result: Result<
    (),
    PlatformError,
>)
    ensures
        result == descriptor_verdict(*facts, kind),
{
    let fits = match kind {
        AclKind::UserFile | AclKind::UserDirectory => facts.owner.worker,
        _ => facts.owner.administrators,
    };
    match inspection(facts, "manifest security descriptor is incomplete", fits) {
        Err(failure) => Err(failure),
        Ok(seen) => validate_acl_contract(&seen, kind),
    }
}

// ---------------------------------------------------------------------------
// File kinds
// ---------------------------------------------------------------------------

/// The attribute of a reparse point.
pub const FILE_ATTRIBUTE_REPARSE_POINT: u32 = 0x0000_0400;

/// The attribute of a directory.
pub const FILE_ATTRIBUTE_DIRECTORY: u32 = 0x0000_0010;

/// What a failed attribute query returns.
pub const INVALID_FILE_ATTRIBUTES: u32 = 0xffff_ffff;

/// What the operating system reports of a path.
#[derive(Clone, Copy, Debug)]
pub struct PathFacts {
    /// The attributes, or `INVALID_FILE_ATTRIBUTES`.
    pub attributes: u32,
    /// Why the attribute query failed, where it did.
    pub attribute_failure: PlatformError,
    /// Whether the path is a directory and whether it is a file.
    pub file_type: Result<(bool, bool), PlatformError>,
}

/// The verdict on a path that must be a directory, or must be a file.
pub open spec fn kind_verdict(facts: PathFacts, directory: bool) -> Result<(), PlatformError> {
    if facts.attributes == INVALID_FILE_ATTRIBUTES {
        Err(facts.attribute_failure)
    } else if facts.attributes & FILE_ATTRIBUTE_REPARSE_POINT != 0 {
        Err(error::denied("manifest security path crosses a reparse point"))
    } else {
        match facts.file_type {
            Err(failure) => Err(failure),
            Ok((is_directory, is_file)) => if (directory && is_directory) || (!directory
                && is_file) {
                Ok(())
            } else {
                Err(error::malformed("manifest ACL target has the wrong file type"))
            },
        }
    }
}

/// Checks that a path is a directory, or is a file, and no reparse point.
pub fn require_kind(facts: &PathFacts, directory: bool) -> (result: Result<(), PlatformError>)
    ensures
        result == kind_verdict(*facts, directory),
{
    if facts.attributes == INVALID_FILE_ATTRIBUTES {
        return Err(facts.attribute_failure);
    }
    if facts.attributes & FILE_ATTRIBUTE_REPARSE_POINT != 0 {
        return Err(permission_denied("manifest security path crosses a reparse point"));
    }
    match facts.file_type {
        Err(failure) => Err(failure),
        Ok(kind) => {
            let valid = if directory {
                kind.0
            } else {
                kind.1
            };
            if !valid {
                return Err(invalid_data("manifest ACL target has the wrong file type"));
            }
            Ok(())
        },
    }
}

/// Whether a path is, or may be, a reparse point.
pub fn path_is_reparse_point(attributes: u32) -> (holds: bool)
    ensures
        holds == (attributes == INVALID_FILE_ATTRIBUTES || attributes
            & FILE_ATTRIBUTE_REPARSE_POINT != 0),
{
    attributes == INVALID_FILE_ATTRIBUTES || attributes & FILE_ATTRIBUTE_REPARSE_POINT != 0
}

} // verus!
