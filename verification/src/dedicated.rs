//! Dedicated worker accounts: from a configured name to a bound principal.

use crate::error;
use crate::error::{permission_denied, ErrorKind, PlatformError};
use crate::principal;
use crate::principal::{PrincipalModel, WorkerAccountPolicy, WorkerPrincipal};
use crate::text;
use crate::text::{chars_of, is_all_in_word_set, len_in_bytes, same_text};
use crate::windows_path;
use crate::windows_path::dedicated_account_name_is_valid;
use std::sync::Arc;
use vstd::prelude::*;

verus! {

/// The one message for every name that is refused; it never repeats the name.
pub const DEDICATED_ACCOUNT_NAME_ERROR: &'static str =
    "dedicated account name is invalid or ambiguous";

/// The longest dedicated account name, in bytes.
pub const MAX_DEDICATED_NAME_BYTES: usize = 256;

// ---------------------------------------------------------------------------
// Selectors
// ---------------------------------------------------------------------------

/// A validated, explicit local-account selector. It carries no lookup
/// authority.
#[derive(Debug)]
pub struct DedicatedAccountSpec {
    name: String,
}

/// Whether `name` selects a local account unambiguously.
pub open spec fn selectable(name: Seq<char>) -> bool {
    &&& name.len() > 0
    &&& text::byte_len(name) <= MAX_DEDICATED_NAME_BYTES
    &&& name[0] != '-' && name[0] != '.'
    &&& name.last() != '.' && name.last() != ' '
    &&& text::all_in_word_set(name, "_-."@)
    &&& windows_path::account_name(name)
}

impl DedicatedAccountSpec {
    #[verifier::type_invariant]
    spec fn is_valid(self) -> bool {
        selectable(self.name@)
    }

    /// The selected name.
    pub closed spec fn selected(self) -> Seq<char> {
        self.name@
    }

    /// A selector, where `name` selects an account unambiguously.
    pub fn new(name: &str) -> (result: Result<Self, PlatformError>)
        ensures
            match result {
                Ok(selector) => selectable(name@) && selector.selected() == name@,
                Err(refusal) => !selectable(name@) && refusal == error::bad_input(
                    DEDICATED_ACCOUNT_NAME_ERROR,
                ),
            },
    {
        let chars = chars_of(name);
        let count: usize = chars.len();
        let valid = count > 0 && len_in_bytes(name) <= MAX_DEDICATED_NAME_BYTES && chars[0] != '-'
            && chars[0] != '.' && chars[count - 1] != '.' && chars[count - 1] != ' '
            && is_all_in_word_set(&chars, "_-.") && dedicated_account_name_is_valid(name);
        if !valid {
            return Err(
                PlatformError::Policy {
                    kind: ErrorKind::InvalidInput,
                    message: DEDICATED_ACCOUNT_NAME_ERROR,
                },
            );
        }
        Ok(DedicatedAccountSpec { name: name.to_owned() })
    }

    /// The selected name.
    pub fn name(&self) -> (name: &str)
        ensures
            name@ == self.selected(),
            selectable(name@),
    {
        proof {
            use_type_invariant(self);
        }
        self.name.as_str()
    }
}

/// A selectable name is never one of the relative directory names.
pub proof fn relative_names_are_not_selectable(name: Seq<char>)
    requires
        selectable(name),
    ensures
        name != "."@,
        name != ".."@,
{
    reveal_strlit(".");
    reveal_strlit("..");
}

// ---------------------------------------------------------------------------
// Observations
// ---------------------------------------------------------------------------

/// Why an account is not usable.
#[derive(Clone, Copy, Debug, PartialEq, Eq, Structural)]
pub enum DedicatedAccountIssue {
    IncompatiblePosture,
    ObservationUnavailable,
    IdentityDrift,
}

/// What the native account database says of a selected account.
#[derive(Clone, Debug)]
pub enum NativeDedicatedAccountObservation {
    Absent,
    PresentHealthy(WorkerPrincipal),
    PresentBroken,
    Unknowable,
}

/// Which home directories an inspection accepts.
#[derive(Clone, Copy, Debug, PartialEq, Eq, Structural)]
pub enum NativeDedicatedAccountInspection {
    Initial,
    Established,
}

/// A selector and the principal it was bound to.
#[derive(Debug)]
pub struct DedicatedAccountBinding {
    selector: DedicatedAccountSpec,
    principal: WorkerPrincipal,
}

/// Whether `principal` is the dedicated account that `name` selects.
pub open spec fn selects(name: Seq<char>, principal: PrincipalModel) -> bool {
    principal.policy == WorkerAccountPolicy::Dedicated && principal.name == name
}

impl DedicatedAccountBinding {
    #[verifier::type_invariant]
    spec fn is_valid(self) -> bool {
        selects(self.selector.selected(), self.principal@)
    }

    /// The selected name.
    pub closed spec fn selected(self) -> Seq<char> {
        self.selector.selected()
    }

    /// The bound principal.
    pub closed spec fn bound(self) -> PrincipalModel {
        self.principal@
    }
}

/// A shared, opaque handle to a binding.
#[derive(Debug)]
pub struct DedicatedAccountHandle {
    binding: Arc<DedicatedAccountBinding>,
}

impl DedicatedAccountHandle {
    /// The selected name.
    pub closed spec fn selected(self) -> Seq<char> {
        self.binding.selected()
    }

    /// The bound principal.
    pub closed spec fn bound(self) -> PrincipalModel {
        self.binding.bound()
    }
}

impl Clone for DedicatedAccountHandle {
    fn clone(&self) -> (shared: Self)
        ensures
            shared.selected() == self.selected(),
            shared.bound() == self.bound(),
    {
        DedicatedAccountHandle { binding: Arc::clone(&self.binding) }
    }
}

/// What an inspection found.
#[derive(Debug)]
pub enum DedicatedAccountObservation {
    Absent,
    PresentHealthy(DedicatedAccountHandle),
    PresentBroken(DedicatedAccountIssue),
    Unknowable(DedicatedAccountIssue),
}

fn is_selected(selector: &DedicatedAccountSpec, principal: &WorkerPrincipal) -> (holds: bool)
    ensures
        holds == selects(selector.selected(), principal@),
{
    principal.account_policy() == WorkerAccountPolicy::Dedicated && same_text(
        principal.name(),
        selector.name(),
    )
}

fn bind(selector: DedicatedAccountSpec, principal: WorkerPrincipal) -> (handle:
    DedicatedAccountHandle)
    requires
        selects(selector.selected(), principal@),
    ensures
        handle.selected() == selector.selected(),
        handle.bound() == principal@,
{
    let binding = DedicatedAccountBinding { selector, principal };
    DedicatedAccountHandle { binding: Arc::new(binding) }
}

/// Decides what a first inspection found: only the selected dedicated account
/// itself is healthy.
pub fn inspect_dedicated_account(
    selector: DedicatedAccountSpec,
    observation: NativeDedicatedAccountObservation,
) -> (result: DedicatedAccountObservation)
    ensures
        match observation {
            NativeDedicatedAccountObservation::Absent => result is Absent,
            NativeDedicatedAccountObservation::PresentHealthy(principal) => if selects(
                selector.selected(),
                principal@,
            ) {
                result matches DedicatedAccountObservation::PresentHealthy(handle)
                    && handle.selected() == selector.selected() && handle.bound() == principal@
            } else {
                result == DedicatedAccountObservation::PresentBroken(
                    DedicatedAccountIssue::IncompatiblePosture,
                )
            },
            NativeDedicatedAccountObservation::PresentBroken => result
                == DedicatedAccountObservation::PresentBroken(
                DedicatedAccountIssue::IncompatiblePosture,
            ),
            NativeDedicatedAccountObservation::Unknowable => result
                == DedicatedAccountObservation::Unknowable(
                DedicatedAccountIssue::ObservationUnavailable,
            ),
        },
{
    match observation {
        NativeDedicatedAccountObservation::Absent => DedicatedAccountObservation::Absent,
        NativeDedicatedAccountObservation::PresentHealthy(principal) => {
            if is_selected(&selector, &principal) {
                DedicatedAccountObservation::PresentHealthy(bind(selector, principal))
            } else {
                DedicatedAccountObservation::PresentBroken(
                    DedicatedAccountIssue::IncompatiblePosture,
                )
            }
        },
        NativeDedicatedAccountObservation::PresentBroken => {
            DedicatedAccountObservation::PresentBroken(DedicatedAccountIssue::IncompatiblePosture)
        },
        NativeDedicatedAccountObservation::Unknowable => {
            DedicatedAccountObservation::Unknowable(DedicatedAccountIssue::ObservationUnavailable)
        },
    }
}

// ---------------------------------------------------------------------------
// Established accounts
// ---------------------------------------------------------------------------

/// Protected proof that a selector and a principal were adopted together.
#[derive(Debug)]
pub struct EstablishedDedicatedAccountEvidence {
    selector: String,
    principal: WorkerPrincipal,
}

impl EstablishedDedicatedAccountEvidence {
    /// The adopted name.
    pub closed spec fn adopted_name(self) -> Seq<char> {
        self.selector@
    }

    /// The adopted principal.
    pub closed spec fn adopted(self) -> PrincipalModel {
        self.principal@
    }
}

/// Evidence of an adoption: the name must be selectable, and the principal
/// must be the dedicated account of that name.
pub fn established_dedicated_account_evidence(
    selector: &str,
    principal: WorkerPrincipal,
) -> (result: Result<EstablishedDedicatedAccountEvidence, PlatformError>)
    ensures
        match result {
            Ok(evidence) => {
                &&& selectable(selector@)
                &&& selects(selector@, principal@)
                &&& evidence.adopted_name() == selector@
                &&& evidence.adopted() == principal@
            },
            Err(refusal) => if !selectable(selector@) {
                refusal == error::bad_input(DEDICATED_ACCOUNT_NAME_ERROR)
            } else {
                !selects(selector@, principal@) && refusal == error::denied(
                    "dedicated account promotion evidence is invalid",
                )
            },
        },
{
    let account = match DedicatedAccountSpec::new(selector) {
        Ok(account) => account,
        Err(refusal) => {
            return Err(refusal);
        },
    };
    if !is_selected(&account, &principal) {
        return Err(permission_denied("dedicated account promotion evidence is invalid"));
    }
    Ok(EstablishedDedicatedAccountEvidence { selector: account.name().to_owned(), principal })
}

/// The authority to mint evidence and to bind accounts.
#[derive(Debug)]
pub struct DedicatedAccountFactoryAuthority {
    sealed: (),
}

impl DedicatedAccountFactoryAuthority {
    /// An authority for tests of what holders of one may do.
    pub fn for_test() -> (authority: Self) {
        DedicatedAccountFactoryAuthority { sealed: () }
    }

    /// Evidence of an adoption that the holder vouches for.
    pub fn established_evidence_for_test(
        &self,
        selector: &DedicatedAccountSpec,
        principal: WorkerPrincipal,
    ) -> (evidence: EstablishedDedicatedAccountEvidence)
        ensures
            evidence.adopted_name() == selector.selected(),
            evidence.adopted() == principal@,
    {
        EstablishedDedicatedAccountEvidence { selector: selector.name().to_owned(), principal }
    }
}

/// What an inspection of an established account found.
pub open spec fn established_outcome(
    name: Seq<char>,
    adopted_name: Seq<char>,
    adopted: PrincipalModel,
    observation: NativeDedicatedAccountObservation,
) -> Result<(), DedicatedAccountObservation> {
    if adopted_name != name || !selects(name, adopted) {
        Err(
            DedicatedAccountObservation::PresentBroken(DedicatedAccountIssue::IncompatiblePosture),
        )
    } else {
        match observation {
            NativeDedicatedAccountObservation::PresentHealthy(principal) if principal@ == adopted => Ok(
                (),
            ),
            NativeDedicatedAccountObservation::Absent
            | NativeDedicatedAccountObservation::PresentHealthy(_) => Err(
                DedicatedAccountObservation::PresentBroken(DedicatedAccountIssue::IdentityDrift),
            ),
            NativeDedicatedAccountObservation::PresentBroken => Err(
                DedicatedAccountObservation::PresentBroken(
                    DedicatedAccountIssue::IncompatiblePosture,
                ),
            ),
            NativeDedicatedAccountObservation::Unknowable => Err(
                DedicatedAccountObservation::Unknowable(
                    DedicatedAccountIssue::ObservationUnavailable,
                ),
            ),
        }
    }
}

/// Decides what an inspection of an established account found: only exactly
/// the adopted principal under exactly the adopted name is healthy.
pub fn established_dedicated_account_observation(
    selector: DedicatedAccountSpec,
    evidence: &EstablishedDedicatedAccountEvidence,
    observation: NativeDedicatedAccountObservation,
) -> (result: DedicatedAccountObservation)
    ensures
        match established_outcome(
            selector.selected(),
            evidence.adopted_name(),
            evidence.adopted(),
            observation,
        ) {
            Ok(()) => result matches DedicatedAccountObservation::PresentHealthy(handle)
                && handle.selected() == selector.selected() && handle.bound() == evidence.adopted(),
            Err(other) => result == other,
        },
{
    if !same_text(evidence.selector.as_str(), selector.name()) || !is_selected(
        &selector,
        &evidence.principal,
    ) {
        return DedicatedAccountObservation::PresentBroken(
            DedicatedAccountIssue::IncompatiblePosture,
        );
    }
    match observation {
        NativeDedicatedAccountObservation::PresentHealthy(principal) => {
            if principal.same_as(&evidence.principal) {
                DedicatedAccountObservation::PresentHealthy(bind(selector, principal))
            } else {
                DedicatedAccountObservation::PresentBroken(DedicatedAccountIssue::IdentityDrift)
            }
        },
        NativeDedicatedAccountObservation::Absent => {
            DedicatedAccountObservation::PresentBroken(DedicatedAccountIssue::IdentityDrift)
        },
        NativeDedicatedAccountObservation::PresentBroken => {
            DedicatedAccountObservation::PresentBroken(DedicatedAccountIssue::IncompatiblePosture)
        },
        NativeDedicatedAccountObservation::Unknowable => {
            DedicatedAccountObservation::Unknowable(DedicatedAccountIssue::ObservationUnavailable)
        },
    }
}

// ---------------------------------------------------------------------------
// Binding
// ---------------------------------------------------------------------------

/// A binding that was reverified, for as long as it is borrowed.
#[derive(Debug)]
pub struct VerifiedDedicatedAccount<'binding> {
    binding: &'binding DedicatedAccountBinding,
}

impl<'binding> VerifiedDedicatedAccount<'binding> {
    /// The verified principal.
    pub closed spec fn verified(self) -> PrincipalModel {
        self.binding.bound()
    }

    /// The verified principal, which is always a dedicated account.
    pub fn principal(&self) -> (principal: &WorkerPrincipal)
        ensures
            principal@ == self.verified(),
            principal@.policy == WorkerAccountPolicy::Dedicated,
    {
        proof {
            use_type_invariant(self.binding);
        }
        &self.binding.principal
    }
}

/// Why a bound account is no longer what it was.
pub open spec fn drift(
    bound: PrincipalModel,
    observation: NativeDedicatedAccountObservation,
) -> Option<DedicatedAccountIssue> {
    match observation {
        NativeDedicatedAccountObservation::PresentHealthy(principal) if principal@ == bound => None,
        NativeDedicatedAccountObservation::Absent
        | NativeDedicatedAccountObservation::PresentHealthy(_) => Some(
            DedicatedAccountIssue::IdentityDrift,
        ),
        NativeDedicatedAccountObservation::PresentBroken => Some(
            DedicatedAccountIssue::IncompatiblePosture,
        ),
        NativeDedicatedAccountObservation::Unknowable => Some(
            DedicatedAccountIssue::ObservationUnavailable,
        ),
    }
}

/// Whether `consume` made `output` of the account that is `bound`.
pub open spec fn consumed_account<Output, Consume>(
    consume: Consume,
    bound: PrincipalModel,
    output: Output,
) -> bool where Consume: for <'binding>FnOnce(VerifiedDedicatedAccount<'binding>) -> Output {
    exists|account: VerifiedDedicatedAccount<'_>|
        account.verified() == bound && call_ensures(consume, (account,), output)
}

/// Whether `consume` made `output` of the principal that is `bound`.
pub open spec fn consumed_principal<Output, Consume>(
    consume: Consume,
    bound: PrincipalModel,
    output: Output,
) -> bool where Consume: for <'binding>FnOnce(&'binding WorkerPrincipal) -> Output {
    exists|principal: &WorkerPrincipal|
        principal@ == bound && call_ensures(consume, (principal,), output)
}

impl DedicatedAccountHandle {
    fn issue(&self, observation: &NativeDedicatedAccountObservation) -> (issue: Option<
        DedicatedAccountIssue,
    >)
        ensures
            issue == drift(self.bound(), *observation),
    {
        match observation {
            NativeDedicatedAccountObservation::PresentHealthy(principal) => {
                if principal.same_as(&self.binding.principal) {
                    None
                } else {
                    Some(DedicatedAccountIssue::IdentityDrift)
                }
            },
            NativeDedicatedAccountObservation::Absent => Some(DedicatedAccountIssue::IdentityDrift),
            NativeDedicatedAccountObservation::PresentBroken => Some(
                DedicatedAccountIssue::IncompatiblePosture,
            ),
            NativeDedicatedAccountObservation::Unknowable => Some(
                DedicatedAccountIssue::ObservationUnavailable,
            ),
        }
    }

    /// Hands the account to `consume` if `observation`, made just now, shows
    /// that nothing drifted.
    pub fn reverify_and_bind<Output, Consume>(
        &self,
        _authority: &DedicatedAccountFactoryAuthority,
        observation: NativeDedicatedAccountObservation,
        consume: Consume,
    ) -> (result: Result<Output, DedicatedAccountIssue>) where
        Consume: for <'binding>FnOnce(VerifiedDedicatedAccount<'binding>) -> Output,

        requires
            forall|account: VerifiedDedicatedAccount<'_>|
                drift(self.bound(), observation) is None && account.verified() == self.bound()
                    ==> call_requires(consume, (account,)),
        ensures
            match result {
                Ok(output) => drift(self.bound(), observation) is None && consumed_account(
                    consume,
                    self.bound(),
                    output,
                ),
                Err(issue) => drift(self.bound(), observation) == Some(issue),
            },
    {
        match self.issue(&observation) {
            Some(issue) => Err(issue),
            None => {
                let binding: &DedicatedAccountBinding = &self.binding;
                let account = VerifiedDedicatedAccount { binding };
                assert(account.verified() == self.bound());
                let output = consume(account);
                assert(call_ensures(consume, (account,), output));
                assert(consumed_account(consume, self.bound(), output));
                Ok(output)
            },
        }
    }

    /// Hands the principal to `consume` if `observation`, made just now, shows
    /// that nothing drifted.
    pub fn reverify_and_bind_for_action<Output, Consume>(
        &self,
        observation: NativeDedicatedAccountObservation,
        consume: Consume,
    ) -> (result: Result<Output, DedicatedAccountIssue>) where
        Consume: for <'binding>FnOnce(&'binding WorkerPrincipal) -> Output,

        requires
            forall|principal: &WorkerPrincipal|
                drift(self.bound(), observation) is None && principal@ == self.bound()
                    ==> call_requires(consume, (principal,)),
        ensures
            match result {
                Ok(output) => drift(self.bound(), observation) is None && consumed_principal(
                    consume,
                    self.bound(),
                    output,
                ),
                Err(issue) => drift(self.bound(), observation) == Some(issue),
            },
    {
        match self.issue(&observation) {
            Some(issue) => Err(issue),
            None => {
                let principal = &self.binding.principal;
                let output = consume(principal);
                assert(call_ensures(consume, (principal,), output));
                assert(consumed_principal(consume, self.bound(), output));
                Ok(output)
            },
        }
    }

    /// Hands the principal to `consume`, for a manifest, if `observation`, made
    /// just now, shows that nothing drifted.
    pub fn reverify_and_bind_for_manifest<Output, Consume>(
        &self,
        observation: NativeDedicatedAccountObservation,
        consume: Consume,
    ) -> (result: Result<Output, DedicatedAccountIssue>) where
        Consume: for <'binding>FnOnce(&'binding WorkerPrincipal) -> Output,

        requires
            forall|principal: &WorkerPrincipal|
                drift(self.bound(), observation) is None && principal@ == self.bound()
                    ==> call_requires(consume, (principal,)),
        ensures
            match result {
                Ok(output) => drift(self.bound(), observation) is None && consumed_principal(
                    consume,
                    self.bound(),
                    output,
                ),
                Err(issue) => drift(self.bound(), observation) == Some(issue),
            },
    {
        self.reverify_and_bind_for_action(observation, consume)
    }

    /// Whether nothing drifted since the account was bound.
    pub fn reverify_for_adoption(&self, observation: NativeDedicatedAccountObservation) -> (result:
        Result<(), DedicatedAccountIssue>)
        ensures
            match drift(self.bound(), observation) {
                None => result is Ok,
                Some(issue) => result == Err::<(), _>(issue),
            },
    {
        match self.issue(&observation) {
            Some(issue) => Err(issue),
            None => Ok(()),
        }
    }
}

/// An account that an inspection found healthy is still healthy when the same
/// principal is observed again.
pub proof fn unchanged_accounts_do_not_drift(
    bound: PrincipalModel,
    observation: NativeDedicatedAccountObservation,
)
    ensures
        drift(bound, observation) is None <==> (observation matches
            NativeDedicatedAccountObservation::PresentHealthy(principal) && principal@ == bound),
{
}

} // verus!
