//! Local Windows accounts: which may be adopted as a dedicated worker.

use crate::acl;
use crate::acl::dedicated_profile_acl_is_safe;
use crate::dedicated::{
    DedicatedAccountSpec, NativeDedicatedAccountInspection, NativeDedicatedAccountObservation,
};
use crate::descriptor;
use crate::descriptor::{
    inspect_aces, SecurityFacts, FILE_ATTRIBUTE_DIRECTORY, FILE_ATTRIBUTE_REPARSE_POINT,
    INVALID_FILE_ATTRIBUTES,
};
use crate::error;
use crate::error::{invalid_data, ErrorKind, PlatformError};
use crate::principal::{PrincipalKind, PrincipalModel, WorkerAccountPolicy, WorkerPrincipal};
use crate::text::same_text;
use vstd::prelude::*;

verus! {

/// The status of a query for an account that does not exist.
pub const NERR_USER_NOT_FOUND: u32 = 2221;

/// The privilege level of an ordinary user.
pub const USER_PRIV_USER: u32 = 1;

/// The flag of a disabled account.
pub const UF_ACCOUNTDISABLE: u32 = 0x0000_0002;

/// The flag of a locked account.
pub const UF_LOCKOUT: u32 = 0x0000_0010;

/// The flag of a normal account.
pub const UF_NORMAL_ACCOUNT: u32 = 0x0000_0200;

/// What is known of an account's profile directory.
#[derive(Clone, Copy, Debug, PartialEq, Eq, Structural)]
pub enum DedicatedProfileState {
    Missing,
    EmptySafe,
    PopulatedSafe,
    Unsafe,
    Unknowable,
}

/// What is known of a local account.
#[derive(Clone, Debug)]
pub struct WindowsDedicatedAccountRecord {
    pub principal: WorkerPrincipal,
    pub is_local_user: bool,
    pub is_enabled: bool,
    pub is_locked: bool,
    pub is_administrator: bool,
    pub profile_configuration_matches: bool,
    pub profile_state: DedicatedProfileState,
}

// ---------------------------------------------------------------------------
// Profiles
// ---------------------------------------------------------------------------

/// Decides what the first entry of a profile directory says of it.
pub fn classify_dedicated_profile_contents<T>(
    first_entry: Option<Result<T, PlatformError>>,
) -> (result: Result<DedicatedProfileState, PlatformError>)
    ensures
        result == (match first_entry {
            None => Ok::<_, PlatformError>(DedicatedProfileState::EmptySafe),
            Some(Ok(_)) => Ok(DedicatedProfileState::PopulatedSafe),
            Some(Err(failure)) => Err(failure),
        }),
{
    match first_entry {
        None => Ok(DedicatedProfileState::EmptySafe),
        Some(Ok(_)) => Ok(DedicatedProfileState::PopulatedSafe),
        Some(Err(failure)) => Err(failure),
    }
}

/// What the operating system reports of a profile directory.
#[derive(Debug)]
pub struct ProfileFacts {
    /// Whether the path is a directory.
    pub is_directory: Result<bool, PlatformError>,
    /// The attributes, or `INVALID_FILE_ATTRIBUTES`.
    pub attributes: u32,
    /// Why the attribute query failed, where it did.
    pub attribute_failure: PlatformError,
    /// The security descriptor, in which the worker is the account.
    pub security: SecurityFacts,
    /// The first entry of the directory, where there is one.
    pub first_entry: Result<Option<Result<(), PlatformError>>, PlatformError>,
}

/// The state of a profile: missing, or a plain directory that the account owns
/// and no stranger can change, empty or not; anything else is unsafe.
pub open spec fn profile_state(facts: ProfileFacts) -> Result<DedicatedProfileState, PlatformError> {
    match facts.is_directory {
        Err(failure) => if failure.spec_kind() == ErrorKind::NotFound {
            Ok(DedicatedProfileState::Missing)
        } else {
            Err(failure)
        },
        Ok(is_directory) => if facts.attributes == INVALID_FILE_ATTRIBUTES {
            Err(facts.attribute_failure)
        } else if !is_directory || facts.attributes & FILE_ATTRIBUTE_DIRECTORY == 0
            || facts.attributes & FILE_ATTRIBUTE_REPARSE_POINT != 0 {
            Ok(DedicatedProfileState::Unsafe)
        } else if let Err(failure) = facts.security.query {
            Err(failure)
        } else if !facts.security.has_owner || !facts.security.has_dacl
            || !facts.security.owner.worker {
            Ok(DedicatedProfileState::Unsafe)
        } else {
            match facts.security.identity_failure {
                Some(failure) => Err(failure),
                None => match facts.security.entries {
                    Err(failure) => Err(failure),
                    Ok(raw) => {
                        let entries = descriptor::read_entries(raw@, true);
                        if exists|i: int|
                            0 <= i < entries.len() && acl::unsafe_profile_entry(
                                #[trigger] entries[i],
                            ) {
                            Ok(DedicatedProfileState::Unsafe)
                        } else {
                            match facts.first_entry {
                                Err(failure) => Err(failure),
                                Ok(None) => Ok(DedicatedProfileState::EmptySafe),
                                Ok(Some(Ok(_))) => Ok(DedicatedProfileState::PopulatedSafe),
                                Ok(Some(Err(failure))) => Err(failure),
                            }
                        }
                    },
                },
            }
        },
    }
}

/// Decides the state of a profile.
pub fn inspect_dedicated_profile(facts: ProfileFacts) -> (result: Result<
    DedicatedProfileState,
    PlatformError,
>)
    ensures
        result == profile_state(facts),
{
    let is_directory = match facts.is_directory {
        Ok(is_directory) => is_directory,
        Err(failure) => {
            let missing = failure.kind() == ErrorKind::NotFound;
            if missing {
                return Ok(DedicatedProfileState::Missing);
            }
            return Err(failure);
        },
    };
    if facts.attributes == INVALID_FILE_ATTRIBUTES {
        return Err(facts.attribute_failure);
    }
    if !is_directory || facts.attributes & FILE_ATTRIBUTE_DIRECTORY == 0 || facts.attributes
        & FILE_ATTRIBUTE_REPARSE_POINT != 0 {
        return Ok(DedicatedProfileState::Unsafe);
    }
    if let Err(failure) = facts.security.query {
        return Err(failure);
    }
    if !facts.security.has_owner || !facts.security.has_dacl || !facts.security.owner.worker {
        return Ok(DedicatedProfileState::Unsafe);
    }
    match facts.security.identity_failure {
        Some(failure) => {
            return Err(failure);
        },
        None => {},
    }
    let entries = match &facts.security.entries {
        Ok(entries) => inspect_aces(entries, true),
        Err(failure) => {
            return Err(*failure);
        },
    };
    if !dedicated_profile_acl_is_safe(&entries) {
        return Ok(DedicatedProfileState::Unsafe);
    }
    match facts.first_entry {
        Err(failure) => Err(failure),
        Ok(first_entry) => classify_dedicated_profile_contents(first_entry),
    }
}

// ---------------------------------------------------------------------------
// Accounts
// ---------------------------------------------------------------------------

/// Whether an inspection accepts a profile in this state.
pub open spec fn eligible_profile(
    state: DedicatedProfileState,
    inspection: NativeDedicatedAccountInspection,
) -> bool {
    match state {
        DedicatedProfileState::Missing | DedicatedProfileState::EmptySafe => true,
        DedicatedProfileState::PopulatedSafe => inspection
            == NativeDedicatedAccountInspection::Established,
        DedicatedProfileState::Unsafe | DedicatedProfileState::Unknowable => false,
    }
}

/// Whether a record shows an account that the name selects and that may be
/// adopted.
pub open spec fn healthy_record(
    name: Seq<char>,
    record: WindowsDedicatedAccountRecord,
    inspection: NativeDedicatedAccountInspection,
) -> bool {
    &&& record.principal@.kind == PrincipalKind::WindowsSid
    &&& record.principal@.policy == WorkerAccountPolicy::Dedicated
    &&& record.principal@.name == name
    &&& record.is_local_user
    &&& record.is_enabled
    &&& !record.is_locked
    &&& !record.is_administrator
    &&& record.profile_configuration_matches
    &&& eligible_profile(record.profile_state, inspection)
}

/// Decides what a record says of the selected account.
pub fn classify_dedicated_account_record(
    selector: &DedicatedAccountSpec,
    record: WindowsDedicatedAccountRecord,
    profile_observation: NativeDedicatedAccountInspection,
) -> (result: NativeDedicatedAccountObservation)
    ensures
        if record.profile_state == DedicatedProfileState::Unknowable {
            result is Unknowable
        } else if healthy_record(selector.selected(), record, profile_observation) {
            result == NativeDedicatedAccountObservation::PresentHealthy(record.principal)
        } else {
            result is PresentBroken
        },
{
    if record.profile_state == DedicatedProfileState::Unknowable {
        return NativeDedicatedAccountObservation::Unknowable;
    }
    let profile_is_eligible = match record.profile_state {
        DedicatedProfileState::Missing | DedicatedProfileState::EmptySafe => true,
        DedicatedProfileState::PopulatedSafe => profile_observation
            == NativeDedicatedAccountInspection::Established,
        DedicatedProfileState::Unsafe | DedicatedProfileState::Unknowable => false,
    };
    if record.principal.principal_kind() != PrincipalKind::WindowsSid
        || record.principal.account_policy() != WorkerAccountPolicy::Dedicated || !same_text(
        record.principal.name(),
        selector.name(),
    ) || !record.is_local_user || !record.is_enabled || record.is_locked || record.is_administrator
        || !record.profile_configuration_matches || !profile_is_eligible {
        return NativeDedicatedAccountObservation::PresentBroken;
    }
    NativeDedicatedAccountObservation::PresentHealthy(record.principal)
}

/// What the account database reports of a selected name, in the order in which
/// it is asked. What is behind a failure is not looked at.
#[derive(Debug)]
pub struct AccountFacts {
    /// The status of the query for the account.
    pub status: u32,
    /// Whether the query returned a record.
    pub has_record: bool,
    /// The privilege level of the account.
    pub privilege: u32,
    /// The flags of the account.
    pub flags: u32,
    /// The name that the record holds.
    pub native_name: Result<String, PlatformError>,
    /// Whether the record's SID could be read.
    pub sid: Result<(), PlatformError>,
    /// Whether the selected name resolves to the record's SID.
    pub resolves_to_sid: Result<bool, PlatformError>,
    /// The principal of the record's SID.
    pub principal: Result<WorkerPrincipal, PlatformError>,
    /// Whether the account belongs to the local administrators.
    pub is_administrator: Result<bool, PlatformError>,
    /// Whether the default profile path is known.
    pub expected_profile: Result<(), PlatformError>,
    /// Whether no profile path is configured, or the default one.
    pub profile_matches: Result<bool, PlatformError>,
    /// The state of the default profile.
    pub profile_state: Result<DedicatedProfileState, PlatformError>,
}

/// The state of a profile that could not be inspected is unknowable.
pub open spec fn known_state(
    state: Result<DedicatedProfileState, PlatformError>,
) -> DedicatedProfileState {
    match state {
        Ok(state) => state,
        Err(_) => DedicatedProfileState::Unknowable,
    }
}

/// Whether a fact that the observation needs is missing, looking only at facts
/// in front of those that prove the account broken.
pub open spec fn unknown_identity(facts: AccountFacts) -> bool {
    facts.status != 0 || !facts.has_record || facts.native_name is Err || facts.sid is Err
        || facts.resolves_to_sid is Err
}

/// Whether the posture of an account whose identity is known is unknown.
pub open spec fn unknown_posture(facts: AccountFacts) -> bool {
    facts.is_administrator is Err || facts.expected_profile is Err || facts.profile_matches is Err
}

/// Whether an account is a normal local user under the selected name.
pub open spec fn local_user(facts: AccountFacts, name: Seq<char>) -> bool {
    &&& facts.privilege == USER_PRIV_USER
    &&& facts.flags & UF_NORMAL_ACCOUNT != 0
    &&& facts.native_name->Ok_0@ == name
}

/// Whether the facts show an account that may be adopted.
pub open spec fn healthy_facts(
    facts: AccountFacts,
    name: Seq<char>,
    principal: PrincipalModel,
    inspection: NativeDedicatedAccountInspection,
) -> bool {
    &&& principal.kind == PrincipalKind::WindowsSid
    &&& principal.policy == WorkerAccountPolicy::Dedicated
    &&& principal.name == name
    &&& local_user(facts, name)
    &&& facts.flags & UF_ACCOUNTDISABLE == 0
    &&& facts.flags & UF_LOCKOUT == 0
    &&& !facts.is_administrator->Ok_0
    &&& facts.profile_matches->Ok_0
    &&& eligible_profile(known_state(facts.profile_state), inspection)
}

/// Decides what the account database says of the selected account.
pub fn inspect_dedicated_account(
    selector: &DedicatedAccountSpec,
    facts: AccountFacts,
    profile_observation: NativeDedicatedAccountInspection,
) -> (result: NativeDedicatedAccountObservation)
    ensures
        if facts.status == NERR_USER_NOT_FOUND {
            result is Absent
        } else if unknown_identity(facts) {
            result is Unknowable
        } else if !facts.resolves_to_sid->Ok_0 || facts.principal is Err {
            result is PresentBroken
        } else if unknown_posture(facts) || known_state(facts.profile_state)
            == DedicatedProfileState::Unknowable {
            result is Unknowable
        } else if healthy_facts(
            facts,
            selector.selected(),
            facts.principal->Ok_0@,
            profile_observation,
        ) {
            result == NativeDedicatedAccountObservation::PresentHealthy(facts.principal->Ok_0)
        } else {
            result is PresentBroken
        },
{
    if facts.status == NERR_USER_NOT_FOUND {
        return NativeDedicatedAccountObservation::Absent;
    }
    if facts.status != 0 || !facts.has_record {
        return NativeDedicatedAccountObservation::Unknowable;
    }
    let native_name = match facts.native_name {
        Ok(name) => name,
        Err(_) => {
            return NativeDedicatedAccountObservation::Unknowable;
        },
    };
    if facts.sid.is_err() {
        return NativeDedicatedAccountObservation::Unknowable;
    }
    match facts.resolves_to_sid {
        Err(_) => {
            return NativeDedicatedAccountObservation::Unknowable;
        },
        Ok(same) => if !same {
            return NativeDedicatedAccountObservation::PresentBroken;
        },
    }
    let principal = match facts.principal {
        Ok(principal) => principal,
        Err(_) => {
            return NativeDedicatedAccountObservation::PresentBroken;
        },
    };
    let is_administrator = match facts.is_administrator {
        Ok(is_administrator) => is_administrator,
        Err(_) => {
            return NativeDedicatedAccountObservation::Unknowable;
        },
    };
    if facts.expected_profile.is_err() {
        return NativeDedicatedAccountObservation::Unknowable;
    }
    let profile_configuration_matches = match facts.profile_matches {
        Ok(matches) => matches,
        Err(_) => {
            return NativeDedicatedAccountObservation::Unknowable;
        },
    };
    let profile_state = match facts.profile_state {
        Ok(state) => state,
        Err(_) => DedicatedProfileState::Unknowable,
    };
    let is_local_user = facts.privilege == USER_PRIV_USER && facts.flags & UF_NORMAL_ACCOUNT != 0
        && same_text(native_name.as_str(), selector.name());
    classify_dedicated_account_record(
        selector,
        WindowsDedicatedAccountRecord {
            principal,
            is_local_user,
            is_enabled: facts.flags & UF_ACCOUNTDISABLE == 0,
            is_locked: facts.flags & UF_LOCKOUT != 0,
            is_administrator,
            profile_configuration_matches,
            profile_state,
        },
        profile_observation,
    )
}

/// What the account database reports of an account's local groups.
#[derive(Debug)]
pub struct GroupFacts {
    /// Whether the administrators' name could be read.
    pub administrators: Result<(), PlatformError>,
    /// Why the query failed, where it did.
    pub query: Result<(), PlatformError>,
    /// How many groups the query returned.
    pub entries_read: u32,
    /// How many groups there are.
    pub total_entries: u32,
    /// For each returned group whether it is the administrators', or why its
    /// name could not be read; `None` where no list came back.
    pub groups: Option<Vec<Result<bool, PlatformError>>>,
}

/// Whether the first group that decides is the administrators': a match, or a
/// name that could not be read.
pub open spec fn member_of_administrators(groups: Seq<Result<bool, PlatformError>>) -> Result<
    bool,
    PlatformError,
>
    decreases groups.len(),
{
    if groups.len() == 0 {
        Ok(false)
    } else {
        match groups[0] {
            Err(failure) => Err(failure),
            Ok(true) => Ok(true),
            Ok(false) => member_of_administrators(groups.drop_first()),
        }
    }
}

/// Whether an account belongs to the local administrators.
pub open spec fn administrator_verdict(facts: GroupFacts) -> Result<bool, PlatformError> {
    if let Err(failure) = facts.administrators {
        Err(failure)
    } else if let Err(failure) = facts.query {
        Err(failure)
    } else if facts.entries_read != facts.total_entries {
        Err(error::malformed("Windows local-group observation returned incomplete data"))
    } else if facts.entries_read == 0 {
        Ok(false)
    } else {
        match facts.groups {
            None => Err(error::malformed("Windows returned a null local-group list")),
            Some(groups) => member_of_administrators(groups@),
        }
    }
}

/// Decides whether an account belongs to the local administrators.
pub fn account_is_local_administrator(facts: &GroupFacts) -> (result: Result<bool, PlatformError>)
    ensures
        result == administrator_verdict(*facts),
{
    if let Err(failure) = facts.administrators {
        return Err(failure);
    }
    if let Err(failure) = facts.query {
        return Err(failure);
    }
    if facts.entries_read != facts.total_entries {
        return Err(invalid_data("Windows local-group observation returned incomplete data"));
    }
    if facts.entries_read == 0 {
        return Ok(false);
    }
    match &facts.groups {
        None => Err(invalid_data("Windows returned a null local-group list")),
        Some(groups) => {
            assert(groups@.skip(0) == groups@);
            for i in 0..groups.len()
                invariant
                    member_of_administrators(groups@.skip(i as int)) == member_of_administrators(
                        groups@,
                    ),
                    administrator_verdict(*facts) == member_of_administrators(groups@),
            {
                assert(groups@.skip(i as int).drop_first() == groups@.skip(i + 1));
                match groups[i] {
                    Err(failure) => {
                        return Err(failure);
                    },
                    Ok(is_administrators) => if is_administrators {
                        return Ok(true);
                    },
                }
            }
            assert(groups@.skip(groups@.len() as int).len() == 0);
            Ok(false)
        },
    }
}

/// The verdict on a principal that was looked up by name.
pub open spec fn named_verdict(name: Seq<char>, principal: PrincipalModel) -> Result<
    (),
    PlatformError,
> {
    if principal.name != name {
        Err(error::denied("worker account name does not match its native SID"))
    } else {
        Ok(())
    }
}

/// The principal that a name resolved to, where its SID resolves back to
/// exactly that name.
pub fn resolve_named_worker_principal(
    name: &str,
    resolved: Result<WorkerPrincipal, PlatformError>,
) -> (result: Result<WorkerPrincipal, PlatformError>)
    ensures
        match resolved {
            Err(failure) => result == Err::<WorkerPrincipal, _>(failure),
            Ok(principal) => match named_verdict(name@, principal@) {
                Ok(()) => result == Ok::<_, PlatformError>(principal),
                Err(refusal) => result == Err::<WorkerPrincipal, _>(refusal),
            },
        },
{
    match resolved {
        Err(failure) => Err(failure),
        Ok(principal) => {
            if !same_text(principal.name(), name) {
                return Err(
                    error::permission_denied("worker account name does not match its native SID"),
                );
            }
            Ok(principal)
        },
    }
}

/// The verdict on a recorded principal, where its SID now resolves to
/// `current`.
pub fn verify_worker_principal(
    principal: &WorkerPrincipal,
    current: Result<WorkerPrincipal, PlatformError>,
) -> (result: Result<(), PlatformError>)
    ensures
        if principal@.kind != PrincipalKind::WindowsSid {
            result == Err::<(), _>(error::malformed("worker principal kind does not match Windows"))
        } else {
            match current {
                Err(failure) => result == Err::<(), _>(failure),
                Ok(current) => if current@ == principal@ {
                    result is Ok
                } else {
                    result == Err::<(), _>(error::denied("worker SID/name identity drift detected"))
                },
            }
        },
{
    if principal.principal_kind() != PrincipalKind::WindowsSid {
        return Err(invalid_data("worker principal kind does not match Windows"));
    }
    match current {
        Err(failure) => Err(failure),
        Ok(current) => {
            if !current.same_as(principal) {
                return Err(error::permission_denied("worker SID/name identity drift detected"));
            }
            Ok(())
        },
    }
}

} // verus!
