//! Which accounts may be dedicated to a worker, and when they are still what they were,
//! in terms of what the account database reported.

use crate::access_laws::rights_have_their_numbers;
use crate::acl;
use crate::dedicated;
use crate::dedicated::{
    established_dedicated_account_evidence, established_dedicated_account_observation,
    DedicatedAccountHandle, DedicatedAccountIssue, DedicatedAccountObservation,
    DedicatedAccountSpec, EstablishedDedicatedAccountEvidence, NativeDedicatedAccountInspection,
    NativeDedicatedAccountObservation,
};
use crate::descriptor;
use crate::descriptor::RawAce;
use crate::error::{ErrorKind, PlatformError};
use crate::path_laws::{is_device_account, lemma_account_name, units_of};
use crate::principal::{PrincipalKind, WorkerAccountPolicy, WorkerPrincipal};
use crate::text;
use crate::windows_account;
use crate::windows_account::{
    account_is_local_administrator, classify_dedicated_account_record,
    classify_dedicated_profile_contents, inspect_dedicated_profile,
    resolve_named_worker_principal, verify_worker_principal, AccountFacts, DedicatedProfileState,
    GroupFacts, ProfileFacts, WindowsDedicatedAccountRecord,
};
use vstd::prelude::*;
use vstd::utf8::encode_utf8;

verus! {

// ---------------------------------------------------------------------------
// Names
// ---------------------------------------------------------------------------

/// Whether a name selects an account: letters, digits, `_`, `-` and `.`, not beginning
/// with a hyphen or a dot nor ending with a dot, at most 256 bytes and twenty units long,
/// and not that of a device.
pub open spec fn selects_account(name: Seq<char>) -> bool {
    &&& name.len() > 0
    &&& encode_utf8(name).len() <= 256
    &&& name[0] != '-' && name[0] != '.' && name.last() != '.'
    &&& forall|i: int|
        0 <= i < name.len() ==> ('0' <= #[trigger] name[i] <= '9' || 'a' <= name[i] <= 'z' || 'A'
            <= name[i] <= 'Z' || name[i] == '_' || name[i] == '-' || name[i] == '.')
    &&& units_of(name) <= 20
    &&& !is_device_account(name)
}

proof fn lemma_selects(name: Seq<char>)
    ensures
        dedicated::selectable(name) == selects_account(name),
{
    reveal_strlit("_-.");
    lemma_account_name(name);
    let extra = "_-."@;
    assert(extra.len() == 3 && extra[0] == '_' && extra[1] == '-' && extra[2] == '.');
    assert forall|c: char| #[trigger] extra.contains(c) <==> c == '_' || c == '-' || c == '.' by {
        assert(extra.contains(extra[0]) && extra.contains(extra[1]) && extra.contains(extra[2]));
    }
    if dedicated::selectable(name) {
        assert forall|i: int| 0 <= i < name.len() implies ('0' <= #[trigger] name[i] <= '9' || 'a'
            <= name[i] <= 'z' || 'A' <= name[i] <= 'Z' || name[i] == '_' || name[i] == '-'
            || name[i] == '.') by {
            assert(text::is_alphanumeric(name[i]) || extra.contains(name[i]));
        }
    }
    if selects_account(name) {
        assert forall|i: int| 0 <= i < name.len() implies text::is_alphanumeric(#[trigger] name[i])
            || extra.contains(name[i]) by {}
        assert(name.last() == name[name.len() - 1]);
    }
}

/// A selector is made exactly of a name that selects an account, and selects that name.
pub proof fn selectors_select_their_name(
    name: &str,
    result: Result<DedicatedAccountSpec, PlatformError>,
)
    requires
        call_ensures(DedicatedAccountSpec::new, (name,), result),
    ensures
        result is Ok <==> selects_account(name@),
        result matches Ok(selector) ==> selector.selected() == name@,
        result is Err ==> (result matches Err(PlatformError::Policy {
            kind: ErrorKind::InvalidInput,
            ..
        })),
{
    lemma_selects(name@);
}

// ---------------------------------------------------------------------------
// What a look at an account says
// ---------------------------------------------------------------------------

/// A first look finds an account healthy exactly where the database does and it is the
/// dedicated one of the selected name; it is then bound as it was found. An account that
/// is not there is absent, and what could not be looked at is not known.
pub proof fn accounts_are_found_by_their_name(
    selector: DedicatedAccountSpec,
    observation: NativeDedicatedAccountObservation,
    result: DedicatedAccountObservation,
)
    requires
        call_ensures(dedicated::inspect_dedicated_account, (selector, observation), result),
    ensures
        result is Absent <==> observation is Absent,
        result is PresentHealthy <==> (observation
            matches NativeDedicatedAccountObservation::PresentHealthy(found) && found@.policy
            == WorkerAccountPolicy::Dedicated && found@.name == selector.selected()),
        result matches DedicatedAccountObservation::PresentHealthy(handle) ==> handle.selected()
            == selector.selected() && handle.bound() == observation->PresentHealthy_0@,
        result is Unknowable <==> observation is Unknowable,
        result matches DedicatedAccountObservation::PresentBroken(issue) ==> issue
            == DedicatedAccountIssue::IncompatiblePosture,
        result matches DedicatedAccountObservation::Unknowable(issue) ==> issue
            == DedicatedAccountIssue::ObservationUnavailable,
{
}

/// An adoption is evidence exactly where the name selects an account and the principal is
/// the dedicated one of that name.
pub proof fn adoptions_are_of_the_named_account(
    selector: &str,
    adopted: WorkerPrincipal,
    result: Result<EstablishedDedicatedAccountEvidence, PlatformError>,
)
    requires
        call_ensures(established_dedicated_account_evidence, (selector, adopted), result),
    ensures
        result is Ok <==> selects_account(selector@) && adopted@.policy
            == WorkerAccountPolicy::Dedicated && adopted@.name == selector@,
        result matches Ok(evidence) ==> evidence.adopted_name() == selector@ && evidence.adopted()
            == adopted@,
{
    lemma_selects(selector@);
}

/// An adopted account is healthy exactly where it was adopted under this name and is found
/// to be the very principal that was adopted. One that is gone, or is another, has
/// drifted.
pub proof fn adopted_accounts_are_the_adopted_principal(
    selector: DedicatedAccountSpec,
    evidence: &EstablishedDedicatedAccountEvidence,
    observation: NativeDedicatedAccountObservation,
    result: DedicatedAccountObservation,
)
    requires
        call_ensures(
            established_dedicated_account_observation,
            (selector, evidence, observation),
            result,
        ),
    ensures
        ({
            let sound = evidence.adopted_name() == selector.selected() && evidence.adopted().policy
                == WorkerAccountPolicy::Dedicated && evidence.adopted().name
                == selector.selected();
            &&& result is PresentHealthy <==> sound && (observation
                matches NativeDedicatedAccountObservation::PresentHealthy(found) && found@
                == evidence.adopted())
            &&& result matches DedicatedAccountObservation::PresentHealthy(handle)
                ==> handle.selected() == selector.selected() && handle.bound()
                == evidence.adopted()
            &&& !sound ==> result == DedicatedAccountObservation::PresentBroken(
                DedicatedAccountIssue::IncompatiblePosture,
            )
            &&& sound && observation is Absent ==> result
                == DedicatedAccountObservation::PresentBroken(DedicatedAccountIssue::IdentityDrift)
            &&& sound && (observation matches NativeDedicatedAccountObservation::PresentHealthy(
                found,
            ) && found@ != evidence.adopted()) ==> result
                == DedicatedAccountObservation::PresentBroken(DedicatedAccountIssue::IdentityDrift)
            &&& sound && observation is PresentBroken ==> result
                == DedicatedAccountObservation::PresentBroken(
                DedicatedAccountIssue::IncompatiblePosture,
            )
            &&& sound && observation is Unknowable ==> result
                == DedicatedAccountObservation::Unknowable(
                DedicatedAccountIssue::ObservationUnavailable,
            )
        }),
{
}

/// A bound account has not drifted exactly where the very principal is found again; an
/// account that is gone or is another has, and one that is broken or could not be looked
/// at is reported as such.
pub proof fn bound_accounts_are_found_again(
    handle: &DedicatedAccountHandle,
    observation: NativeDedicatedAccountObservation,
    result: Result<(), DedicatedAccountIssue>,
)
    requires
        call_ensures(
            DedicatedAccountHandle::reverify_for_adoption,
            (handle, observation),
            result,
        ),
    ensures
        result is Ok <==> (observation matches NativeDedicatedAccountObservation::PresentHealthy(
            found,
        ) && found@ == handle.bound()),
        result matches Err(issue) ==> issue == match observation {
            NativeDedicatedAccountObservation::PresentBroken =>
                DedicatedAccountIssue::IncompatiblePosture,
            NativeDedicatedAccountObservation::Unknowable =>
                DedicatedAccountIssue::ObservationUnavailable,
            _ => DedicatedAccountIssue::IdentityDrift,
        },
{
}

/// A bound account is handed on exactly where it has not drifted, and it is the bound one
/// that is handed on.
pub proof fn bound_accounts_are_handed_on<Output, Consume>(
    handle: &DedicatedAccountHandle,
    observation: NativeDedicatedAccountObservation,
    consume: Consume,
    for_action: Result<Output, DedicatedAccountIssue>,
    for_manifest: Result<Output, DedicatedAccountIssue>,
) where Consume: for <'binding>FnOnce(&'binding WorkerPrincipal) -> Output
    requires
        call_ensures(
            DedicatedAccountHandle::reverify_and_bind_for_action::<Output, Consume>,
            (handle, observation, consume),
            for_action,
        ),
        call_ensures(
            DedicatedAccountHandle::reverify_and_bind_for_manifest::<Output, Consume>,
            (handle, observation, consume),
            for_manifest,
        ),
    ensures
        ({
            let found = observation matches NativeDedicatedAccountObservation::PresentHealthy(
                found,
            ) && found@ == handle.bound();
            &&& for_action is Ok <==> found
            &&& for_manifest is Ok <==> found
            &&& for_action matches Ok(output) ==> exists|account: &WorkerPrincipal|
                account@ == handle.bound() && #[trigger] call_ensures(
                    consume,
                    (account,),
                    output,
                )
            &&& for_manifest matches Ok(output) ==> exists|account: &WorkerPrincipal|
                account@ == handle.bound() && #[trigger] call_ensures(
                    consume,
                    (account,),
                    output,
                )
        }),
{
}

// ---------------------------------------------------------------------------
// Local accounts
// ---------------------------------------------------------------------------

/// A directory is empty where it has no first entry, populated where it has one, and a
/// failure to read it stays one.
pub proof fn profiles_are_judged_by_their_first_entry<T>(
    first: Option<Result<T, PlatformError>>,
    result: Result<DedicatedProfileState, PlatformError>,
)
    requires
        call_ensures(classify_dedicated_profile_contents::<T>, (first,), result),
    ensures
        result == Ok::<_, PlatformError>(DedicatedProfileState::EmptySafe) <==> first is None,
        result == Ok::<_, PlatformError>(DedicatedProfileState::PopulatedSafe) <==> first is Some
            && first->0 is Ok,
        result is Err <==> first is Some && first->0 is Err,
{
}

/// Whether a reported entry lets a stranger change a profile, be it by inheritance.
pub open spec fn lets_stranger_change(entry: RawAce) -> bool {
    ||| entry.kind > 1
    ||| entry.kind == 0 && !entry.sid.system && !entry.sid.administrators
        && !entry.sid.trusted_installer && !entry.sid.worker && entry.mask & 0x500d_0116 != 0
}

/// Whether a profile is safe: a plain directory of the account itself, whose list lets no
/// stranger change it.
pub open spec fn is_safe_profile(facts: ProfileFacts) -> bool {
    &&& facts.is_directory == Ok::<_, PlatformError>(true)
    &&& facts.attributes != 0xffff_ffff && facts.attributes & 0x10 != 0 && facts.attributes & 0x400
        == 0
    &&& facts.security.query is Ok && facts.security.has_owner && facts.security.has_dacl
    &&& facts.security.owner.worker
    &&& facts.security.identity_failure is None
    &&& facts.security.entries matches Ok(entries) && forall|i: int|
        0 <= i < entries@.len() ==> !lets_stranger_change(#[trigger] entries@[i])
}

/// A profile is missing exactly where the system says so; safe, empty or not, exactly
/// where it is and could be looked into.
pub proof fn profiles_are_safe_or_missing(
    facts: ProfileFacts,
    result: Result<DedicatedProfileState, PlatformError>,
)
    requires
        call_ensures(inspect_dedicated_profile, (facts,), result),
    ensures
        result == Ok::<_, PlatformError>(DedicatedProfileState::Missing) <==> facts.is_directory
            is Err && facts.is_directory->Err_0.spec_kind() == ErrorKind::NotFound,
        result == Ok::<_, PlatformError>(DedicatedProfileState::EmptySafe) <==> is_safe_profile(
            facts,
        ) && facts.first_entry == Ok::<Option<Result<(), PlatformError>>, PlatformError>(None),
        result == Ok::<_, PlatformError>(DedicatedProfileState::PopulatedSafe) <==> is_safe_profile(
            facts,
        ) && facts.first_entry is Ok && facts.first_entry->Ok_0 is Some && facts.first_entry->Ok_0->0
            is Ok,
        result != Ok::<_, PlatformError>(DedicatedProfileState::Unknowable),
{
    rights_have_their_numbers();
    assert(0x500d_0040u32 & 0x500d_0116u32 != 0) by (bit_vector);
    if let Ok(raw) = facts.security.entries {
        let entries = descriptor::read_entries(raw@, true);
        assert forall|i: int| 0 <= i < raw@.len() implies acl::unsafe_profile_entry(
            #[trigger] entries[i],
        ) == lets_stranger_change(raw@[i]) by {}
        if exists|i: int|
            0 <= i < entries.len() && acl::unsafe_profile_entry(#[trigger] entries[i]) {
            let i = choose|i: int|
                0 <= i < entries.len() && acl::unsafe_profile_entry(#[trigger] entries[i]);
            assert(lets_stranger_change(raw@[i]));
        } else {
            assert forall|i: int| 0 <= i < raw@.len() implies !lets_stranger_change(
                #[trigger] raw@[i],
            ) by {
                assert(!acl::unsafe_profile_entry(entries[i]));
            }
        }
    }
}

/// Whether a profile may be there: none or an empty one always, one with something in it
/// only for an account that was adopted.
pub open spec fn profile_may_be(
    state: DedicatedProfileState,
    inspection: NativeDedicatedAccountInspection,
) -> bool {
    ||| state == DedicatedProfileState::Missing
    ||| state == DedicatedProfileState::EmptySafe
    ||| state == DedicatedProfileState::PopulatedSafe && inspection
        == NativeDedicatedAccountInspection::Established
}

/// A record is healthy exactly where it is of the dedicated local account of the selected
/// name, enabled, not locked, no administrator, with its own profile, which may be there
/// so. Where the profile is not known, nothing is.
pub proof fn records_are_healthy_for_plain_users(
    selector: &DedicatedAccountSpec,
    record: WindowsDedicatedAccountRecord,
    inspection: NativeDedicatedAccountInspection,
    result: NativeDedicatedAccountObservation,
)
    requires
        call_ensures(
            classify_dedicated_account_record,
            (selector, record, inspection),
            result,
        ),
    ensures
        result is PresentHealthy <==> {
            &&& record.principal@.kind == PrincipalKind::WindowsSid
            &&& record.principal@.policy == WorkerAccountPolicy::Dedicated
            &&& record.principal@.name == selector.selected()
            &&& record.is_local_user && record.is_enabled && !record.is_locked
            &&& !record.is_administrator
            &&& record.profile_configuration_matches
            &&& profile_may_be(record.profile_state, inspection)
        },
        result matches NativeDedicatedAccountObservation::PresentHealthy(found) ==> found
            == record.principal,
        result is Unknowable <==> record.profile_state == DedicatedProfileState::Unknowable,
        result is PresentHealthy || result is Unknowable || result is PresentBroken,
{
}

/// The database's account is absent exactly where the database says so, and healthy
/// exactly where everything was answered and it is the dedicated, normal local user of the
/// selected name, enabled, not locked, no administrator, with its own profile, which may
/// be there so.
pub proof fn accounts_are_healthy_for_plain_users(
    selector: &DedicatedAccountSpec,
    facts: AccountFacts,
    inspection: NativeDedicatedAccountInspection,
    result: NativeDedicatedAccountObservation,
)
    requires
        call_ensures(
            windows_account::inspect_dedicated_account,
            (selector, facts, inspection),
            result,
        ),
    ensures
        result is Absent <==> facts.status == 2221,
        result is PresentHealthy <==> {
            &&& facts.status == 0 && facts.has_record
            &&& facts.native_name matches Ok(name) && name@ == selector.selected()
            &&& facts.sid is Ok
            &&& facts.resolves_to_sid == Ok::<_, PlatformError>(true)
            &&& facts.principal matches Ok(found) && found@.kind == PrincipalKind::WindowsSid
                && found@.policy == WorkerAccountPolicy::Dedicated && found@.name
                == selector.selected()
            &&& facts.is_administrator == Ok::<_, PlatformError>(false)
            &&& facts.expected_profile is Ok
            &&& facts.profile_matches == Ok::<_, PlatformError>(true)
            &&& facts.profile_state matches Ok(state) && profile_may_be(state, inspection)
            &&& facts.privilege == 1
            &&& facts.flags & 0x200 != 0 && facts.flags & 0x2 == 0 && facts.flags & 0x10 == 0
        },
        result matches NativeDedicatedAccountObservation::PresentHealthy(found) ==> facts.principal
            == Ok::<_, PlatformError>(found),
        facts.status != 2221 && (facts.status != 0 || !facts.has_record || facts.native_name is Err
            || facts.sid is Err || facts.resolves_to_sid is Err) ==> result is Unknowable,
{
}

/// Whether a group before which none decides is the administrators'.
pub open spec fn first_to_decide(
    groups: Seq<Result<bool, PlatformError>>,
    at: int,
    answer: Result<bool, PlatformError>,
) -> bool {
    &&& 0 <= at < groups.len()
    &&& groups[at] == answer
    &&& answer != Ok::<_, PlatformError>(false)
    &&& forall|i: int| 0 <= i < at ==> #[trigger] groups[i] == Ok::<_, PlatformError>(false)
}

proof fn lemma_member(groups: Seq<Result<bool, PlatformError>>)
    ensures
        windows_account::member_of_administrators(groups) == Ok::<_, PlatformError>(false)
            <==> forall|i: int|
            0 <= i < groups.len() ==> #[trigger] groups[i] == Ok::<_, PlatformError>(false),
        windows_account::member_of_administrators(groups) != Ok::<_, PlatformError>(false)
            ==> exists|at: int| #[trigger]
            first_to_decide(groups, at, windows_account::member_of_administrators(groups)),
    decreases groups.len(),
{
    if groups.len() > 0 {
        let tail = groups.drop_first();
        assert forall|i: int| 0 <= i < tail.len() implies (#[trigger] tail[i]) == groups[i
            + 1] by {}
        let answer = windows_account::member_of_administrators(groups);
        if groups[0] == Ok::<_, PlatformError>(false) {
            lemma_member(tail);
            if answer == Ok::<_, PlatformError>(false) {
                assert forall|i: int| 0 <= i < groups.len() implies #[trigger] groups[i] == Ok::<
                    _,
                    PlatformError,
                >(false) by {
                    if i > 0 {
                        assert(tail[i - 1] == Ok::<_, PlatformError>(false));
                    }
                }
            } else {
                let at = choose|at: int| #[trigger] first_to_decide(tail, at, answer);
                assert forall|i: int| 0 <= i < at + 1 implies #[trigger] groups[i] == Ok::<
                    _,
                    PlatformError,
                >(false) by {
                    if i > 0 {
                        assert(tail[i - 1] == Ok::<_, PlatformError>(false));
                    }
                }
                assert(first_to_decide(groups, at + 1, answer));
            }
            if forall|i: int|
                0 <= i < groups.len() ==> #[trigger] groups[i] == Ok::<_, PlatformError>(false) {
                assert forall|i: int| 0 <= i < tail.len() implies #[trigger] tail[i] == Ok::<
                    _,
                    PlatformError,
                >(false) by {
                    assert(groups[i + 1] == Ok::<_, PlatformError>(false));
                }
            }
        } else {
            assert(first_to_decide(groups, 0, answer));
        }
    }
}

/// An account is no administrator exactly where the whole list of its groups came back and
/// none of them is the administrators'; it is one where one is, before any that could not
/// be read.
pub proof fn administrators_are_found_among_groups(
    facts: &GroupFacts,
    result: Result<bool, PlatformError>,
)
    requires
        call_ensures(account_is_local_administrator, (facts,), result),
    ensures
        ({
            let whole = facts.administrators is Ok && facts.query is Ok && facts.entries_read
                == facts.total_entries;
            &&& result == Ok::<_, PlatformError>(false) <==> whole && (facts.entries_read == 0 || (
            facts.groups matches Some(groups) && forall|i: int|
                0 <= i < groups@.len() ==> #[trigger] groups@[i] == Ok::<_, PlatformError>(false)))
            &&& result == Ok::<_, PlatformError>(true) ==> whole && (facts.groups matches Some(
                groups,
            ) && exists|at: int| #[trigger]
                first_to_decide(groups@, at, Ok::<bool, PlatformError>(true)))
        }),
{
    if let Some(groups) = facts.groups {
        lemma_member(groups@);
    }
}

/// A principal that was looked up by name is taken exactly where it has that name; one
/// that was recorded is confirmed exactly where it is of Windows and its identifier now
/// gives the very same principal.
pub proof fn principals_are_confirmed_by_lookup(
    name: &str,
    resolved: Result<WorkerPrincipal, PlatformError>,
    found: Result<WorkerPrincipal, PlatformError>,
    recorded: &WorkerPrincipal,
    confirmed: Result<(), PlatformError>,
)
    requires
        call_ensures(resolve_named_worker_principal, (name, resolved), found),
        call_ensures(verify_worker_principal, (recorded, resolved), confirmed),
    ensures
        found is Ok <==> (resolved matches Ok(one) && one@.name == name@),
        found is Ok ==> found == resolved,
        confirmed is Ok <==> recorded@.kind == PrincipalKind::WindowsSid && (resolved matches Ok(
            one,
        ) && one@ == recorded@),
{
}

} // verus!
