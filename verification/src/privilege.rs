//! Changes under a privilege: getting it, giving it back, and what a change comes
//! to when either fails.

use crate::error;
use crate::error::{permission_denied, ErrorKind, OsStatus, PlatformError};
use crate::text::{chars_of, string_of};
use vstd::prelude::*;

verus! {

/// A change that was made under a privilege: what it left, and whether it
/// failed.
#[derive(Debug)]
pub struct WindowsPrivilegedWorkerMutation<Evidence> {
    pub operation_error: Option<PlatformError>,
    pub evidence: Evidence,
}

/// What a change comes to, once the privilege was given back.
#[derive(Debug)]
pub enum WindowsPrivilegedWorkerMutationResolution<Evidence> {
    Success(Evidence),
    OperationFailure { error: PlatformError, evidence: Evidence },
    /// The privilege could not be given back.
    Failure {
        operation_error: Option<PlatformError>,
        cleanup_error: PrivilegeError,
        evidence: Evidence,
    },
}

/// What a change comes to. What it left is kept in every case.
pub open spec fn reconciled<Evidence>(
    mutation: WindowsPrivilegedWorkerMutation<Evidence>,
    cleanup: Result<(), PrivilegeError>,
) -> WindowsPrivilegedWorkerMutationResolution<Evidence> {
    match cleanup {
        Err(cleanup_error) => WindowsPrivilegedWorkerMutationResolution::Failure {
            operation_error: mutation.operation_error,
            cleanup_error,
            evidence: mutation.evidence,
        },
        Ok(()) => match mutation.operation_error {
            Some(error) => WindowsPrivilegedWorkerMutationResolution::OperationFailure {
                error,
                evidence: mutation.evidence,
            },
            None => WindowsPrivilegedWorkerMutationResolution::Success(mutation.evidence),
        },
    }
}

/// Settles a change after the privilege was given back, or was not.
pub fn reconcile_windows_privileged_worker_mutation<Evidence>(
    mutation: WindowsPrivilegedWorkerMutation<Evidence>,
    cleanup: Result<(), PrivilegeError>,
) -> (resolution: WindowsPrivilegedWorkerMutationResolution<Evidence>)
    ensures
        resolution == reconciled(mutation, cleanup),
{
    match cleanup {
        Err(cleanup_error) => WindowsPrivilegedWorkerMutationResolution::Failure {
            operation_error: mutation.operation_error,
            cleanup_error,
            evidence: mutation.evidence,
        },
        Ok(()) => match mutation.operation_error {
            Some(error) => WindowsPrivilegedWorkerMutationResolution::OperationFailure {
                error,
                evidence: mutation.evidence,
            },
            None => WindowsPrivilegedWorkerMutationResolution::Success(mutation.evidence),
        },
    }
}

/// The evidence that a resolution holds.
pub open spec fn evidence_of<Evidence>(
    resolution: WindowsPrivilegedWorkerMutationResolution<Evidence>,
) -> Evidence {
    match resolution {
        WindowsPrivilegedWorkerMutationResolution::Success(evidence) => evidence,
        WindowsPrivilegedWorkerMutationResolution::OperationFailure { error, evidence } => evidence,
        WindowsPrivilegedWorkerMutationResolution::Failure {
            operation_error,
            cleanup_error,
            evidence,
        } => evidence,
    }
}

/// Settling a change loses nothing of what it left, and succeeds only where
/// neither the change nor giving back the privilege failed.
pub proof fn settling_keeps_the_evidence<Evidence>(
    mutation: WindowsPrivilegedWorkerMutation<Evidence>,
    cleanup: Result<(), PrivilegeError>,
)
    ensures
        evidence_of(reconciled(mutation, cleanup)) == mutation.evidence,
        reconciled(mutation, cleanup) is Success <==> mutation.operation_error is None
            && cleanup is Ok,
{
}

/// The status of privileges that were not all assigned.
pub const ERROR_NOT_ALL_ASSIGNED: i32 = 1300;

/// Whether the privilege to restore owners is needed and was given: it is not
/// needed where the owner is the current user.
pub open spec fn restore_privilege_verdict(
    owner_matches_current: bool,
    adjustment_succeeded: bool,
    last_error: OsStatus,
) -> Result<bool, PlatformError> {
    if owner_matches_current {
        Ok(false)
    } else if !adjustment_succeeded {
        Err(last_error.failed())
    } else if last_error.code == ERROR_NOT_ALL_ASSIGNED {
        Err(error::denied("SeRestorePrivilege is unavailable for dedicated worker ownership"))
    } else if last_error.code != 0 {
        Err(last_error.failed())
    } else {
        Ok(true)
    }
}

/// Judges whether the privilege to restore owners is needed and was given.
pub fn validate_windows_restore_privilege_result(
    owner_matches_current: bool,
    adjustment_succeeded: bool,
    last_error: OsStatus,
) -> (result: Result<bool, PlatformError>)
    ensures
        result == restore_privilege_verdict(
            owner_matches_current,
            adjustment_succeeded,
            last_error,
        ),
{
    if owner_matches_current {
        return Ok(false);
    }
    if !adjustment_succeeded {
        return Err(last_error.failure());
    }
    if last_error.code == ERROR_NOT_ALL_ASSIGNED {
        return Err(
            permission_denied("SeRestorePrivilege is unavailable for dedicated worker ownership"),
        );
    }
    if last_error.code != 0 {
        return Err(last_error.failure());
    }
    Ok(true)
}

/// The state that a privilege had before, to be restored once.
#[derive(Debug)]
pub struct WindowsPrivilegeRestorer<State> {
    pub previous: State,
}

impl<State> WindowsPrivilegeRestorer<State> {
    /// Remembers a state.
    pub fn new(previous: State) -> (restorer: Self)
        ensures
            restorer.previous == previous,
    {
        WindowsPrivilegeRestorer { previous }
    }

    /// Restores exactly the state that was remembered.
    pub fn restore<Error, F: FnOnce(State) -> Result<(), Error>>(self, restore: F) -> (result:
        Result<(), Error>)
        requires
            call_requires(restore, (self.previous,)),
        ensures
            call_ensures(restore, (self.previous,), result),
    {
        restore(self.previous)
    }
}

/// Two failures, the first of which says what kind of failure they are.
#[derive(Clone, Copy, Debug)]
pub struct CombinedPrivilegeError {
    pub primary_label: &'static str,
    pub primary: PlatformError,
    pub secondary_label: &'static str,
    pub secondary: PlatformError,
}

/// One failure or two.
#[derive(Clone, Copy, Debug)]
pub enum PrivilegeError {
    Single(PlatformError),
    Combined(CombinedPrivilegeError),
}

impl PrivilegeError {
    /// The class of the failure: of two failures that of the first.
    pub open spec fn spec_kind(self) -> ErrorKind {
        match self {
            PrivilegeError::Single(failure) => failure.spec_kind(),
            PrivilegeError::Combined(both) => both.primary.spec_kind(),
        }
    }

    /// The class of the failure: of two failures that of the first.
    pub fn kind(&self) -> (kind: ErrorKind)
        ensures
            kind == self.spec_kind(),
    {
        match self {
            PrivilegeError::Single(failure) => failure.kind(),
            PrivilegeError::Combined(both) => both.primary.kind(),
        }
    }

    /// What is said of the failure, given what is said of its parts.
    pub fn text(&self, primary: &str, secondary: &str) -> (text: String)
        ensures
            text@ == (match *self {
                PrivilegeError::Single(_) => primary@,
                PrivilegeError::Combined(both) => both.primary_label@ + ": "@ + primary@ + "; "@
                    + both.secondary_label@ + ": "@ + secondary@,
            }),
    {
        match self {
            PrivilegeError::Single(_) => primary.to_owned(),
            PrivilegeError::Combined(both) => {
                let mut chars = chars_of(both.primary_label);
                let mut colon = chars_of(": ");
                chars.append(&mut colon);
                let mut first = chars_of(primary);
                chars.append(&mut first);
                let mut between = chars_of("; ");
                chars.append(&mut between);
                let mut label = chars_of(both.secondary_label);
                chars.append(&mut label);
                let mut colon = chars_of(": ");
                chars.append(&mut colon);
                let mut second = chars_of(secondary);
                chars.append(&mut second);
                string_of(&chars)
            },
        }
    }
}

/// Joins two failures.
pub fn combine_privilege_errors(
    primary_label: &'static str,
    primary: PlatformError,
    secondary_label: &'static str,
    secondary: PlatformError,
) -> (failure: PrivilegeError)
    ensures
        failure == PrivilegeError::Combined(
            CombinedPrivilegeError { primary_label, primary, secondary_label, secondary },
        ),
{
    PrivilegeError::Combined(
        CombinedPrivilegeError { primary_label, primary, secondary_label, secondary },
    )
}

/// What giving back a privilege comes to: the exact state must be restored, and
/// the thread must act for itself again.
pub open spec fn given_back(
    restoration: Result<(), PlatformError>,
    reversion: Result<(), PlatformError>,
) -> Result<(), PrivilegeError> {
    match (restoration, reversion) {
        (Ok(()), Ok(())) => Ok(()),
        (Err(failure), Ok(())) => Err(PrivilegeError::Single(failure)),
        (Ok(()), Err(failure)) => Err(PrivilegeError::Single(failure)),
        (Err(primary), Err(secondary)) => Err(
            PrivilegeError::Combined(
                CombinedPrivilegeError {
                    primary_label: "exact privilege restoration failed",
                    primary,
                    secondary_label: "thread impersonation reversion also failed",
                    secondary,
                },
            ),
        ),
    }
}

/// What came of getting the privilege to restore owners: whether the process's
/// token could be opened and copied, whether the privilege has a number, whether
/// it was asked for, how long its earlier state is, and whether the thread acts
/// with it.
#[derive(Clone, Copy, Debug)]
pub struct PrivilegeFacts {
    pub process_token: Result<(), PlatformError>,
    pub thread_token: Result<(), PlatformError>,
    pub privilege_number: Result<(), PlatformError>,
    pub adjusted: bool,
    pub last_error: OsStatus,
    pub previous_length: u32,
    pub state_size: u32,
    pub impersonating: Result<(), PlatformError>,
}

/// Whether the privilege was got, apart from acting with it.
pub open spec fn privilege_got(facts: PrivilegeFacts) -> Result<(), PlatformError> {
    match error::first_refusal(
        seq![facts.process_token, facts.thread_token, facts.privilege_number],
    ) {
        Err(failure) => Err(failure),
        Ok(()) => match restore_privilege_verdict(false, facts.adjusted, facts.last_error) {
            Err(failure) => Err(failure),
            Ok(_) => if facts.previous_length > facts.state_size {
                Err(error::malformed("Windows returned an oversized restore-privilege state"))
            } else {
                Ok(())
            },
        },
    }
}

/// Checks whether the privilege was got, before a thread acts with it.
pub fn check_privilege(facts: &PrivilegeFacts) -> (result: Result<(), PlatformError>)
    ensures
        result == privilege_got(*facts),
{
    let required = [facts.process_token, facts.thread_token, facts.privilege_number];
    let all = error::require_all(&required);
    assert(required@ =~= seq![facts.process_token, facts.thread_token, facts.privilege_number]);
    match all {
        Ok(()) => {},
        Err(failure) => {
            return Err(failure);
        },
    }
    match validate_windows_restore_privilege_result(false, facts.adjusted, facts.last_error) {
        Ok(_) => {},
        Err(failure) => {
            return Err(failure);
        },
    }
    if facts.previous_length > facts.state_size {
        return Err(error::invalid_data("Windows returned an oversized restore-privilege state"));
    }
    Ok(())
}

/// The privilege to restore owners, in force for a thread.
#[derive(Debug)]
pub struct ThreadRestorePrivilege<State> {
    pub restorer: WindowsPrivilegeRestorer<State>,
}

/// Whether giving a privilege back came to this: its earlier state was restored, or was
/// not, and the thread acts for itself again, or does not.
pub open spec fn undone<State, F, G>(
    privilege: ThreadRestorePrivilege<State>,
    restore: F,
    revert: G,
    result: Result<(), PrivilegeError>,
) -> bool where
    F: FnOnce(State) -> Result<(), PlatformError>,
    G: FnOnce() -> Result<(), PlatformError>,
 {
    exists|restoration: Result<(), PlatformError>, reversion: Result<(), PlatformError>|
        #![trigger given_back(restoration, reversion)]
        call_ensures(restore, (privilege.restorer.previous,), restoration) && call_ensures(
            revert,
            (),
            reversion,
        ) && result == given_back(restoration, reversion)
}

impl<State> ThreadRestorePrivilege<State> {
    /// Keeps the privilege, once the thread acts with it. Where the thread cannot
    /// act with it, its earlier state is restored.
    pub fn enable<F: FnOnce(State) -> Result<(), PlatformError>>(
        facts: &PrivilegeFacts,
        previous: State,
        restore: F,
    ) -> (result: Result<Self, PrivilegeError>)
        requires
            privilege_got(*facts) is Ok && facts.impersonating is Err ==> call_requires(
                restore,
                (previous,),
            ),
        ensures
            match privilege_got(*facts) {
                Err(failure) => result == Err::<ThreadRestorePrivilege<State>, _>(
                    PrivilegeError::Single(failure),
                ),
                Ok(()) => match facts.impersonating {
                    Ok(()) => result matches Ok(privilege) && privilege.restorer.previous
                        == previous,
                    Err(failure) => match result {
                        Err(PrivilegeError::Single(single)) => single == failure && call_ensures(
                            restore,
                            (previous,),
                            Ok(()),
                        ),
                        Err(PrivilegeError::Combined(both)) => {
                            &&& both.primary_label == "thread impersonation failed"
                            &&& both.primary == failure
                            &&& both.secondary_label == "exact privilege restoration also failed"
                            &&& call_ensures(restore, (previous,), Err(both.secondary))
                        },
                        Ok(_) => false,
                    },
                },
            },
    {
        match check_privilege(facts) {
            Ok(()) => {},
            Err(failure) => {
                return Err(PrivilegeError::Single(failure));
            },
        }
        let restorer = WindowsPrivilegeRestorer::new(previous);
        match facts.impersonating {
            Ok(()) => Ok(ThreadRestorePrivilege { restorer }),
            Err(failure) => match restorer.restore(restore) {
                Ok(unit) => {
                    assert(unit == ());
                    Err(PrivilegeError::Single(failure))
                },
                Err(secondary) => Err(
                    combine_privilege_errors(
                        "thread impersonation failed",
                        failure,
                        "exact privilege restoration also failed",
                        secondary,
                    ),
                ),
            },
        }
    }

    /// Gives the privilege back: its earlier state is restored, and the thread
    /// acts for itself again, whether or not the state could be restored.
    pub fn restore_and_revert<F, G>(self, restore: F, revert: G) -> (result: Result<
        (),
        PrivilegeError,
    >) where
        F: FnOnce(State) -> Result<(), PlatformError>,
        G: FnOnce() -> Result<(), PlatformError>,

        requires
            call_requires(restore, (self.restorer.previous,)),
            (exists|restoration: Result<(), PlatformError>| #[trigger]
                call_ensures(restore, (self.restorer.previous,), restoration)) ==> call_requires(
                revert,
                (),
            ),
        ensures
            undone(self, restore, revert, result),
    {
        let restoration = self.restorer.restore(restore);
        let reversion = revert();
        assert(call_ensures(revert, (), reversion));
        let ghost both = given_back(restoration, reversion);
        match restoration {
            Ok(()) => match reversion {
                Ok(()) => Ok(()),
                Err(failure) => Err(PrivilegeError::Single(failure)),
            },
            Err(primary) => match reversion {
                Ok(()) => Err(PrivilegeError::Single(primary)),
                Err(secondary) => Err(
                    combine_privilege_errors(
                        "exact privilege restoration failed",
                        primary,
                        "thread impersonation reversion also failed",
                        secondary,
                    ),
                ),
            },
        }
    }
}

/// What came of restoring the exact state of a privilege.
pub fn restore_token_privileges_exact(adjusted: bool, last_error: OsStatus) -> (result: Result<
    (),
    PlatformError,
>)
    ensures
        result == if adjusted && last_error.code == 0 {
            Ok(())
        } else if last_error.code == 0 {
            Err(
                PlatformError::Policy {
                    kind: ErrorKind::Other,
                    message: "Windows rejected exact restore-privilege state",
                },
            )
        } else {
            Err(last_error.failed())
        },
{
    if !adjusted || last_error.code != 0 {
        if last_error.code == 0 {
            Err(
                PlatformError::Policy {
                    kind: ErrorKind::Other,
                    message: "Windows rejected exact restore-privilege state",
                },
            )
        } else {
            Err(last_error.failure())
        }
    } else {
        Ok(())
    }
}

} // verus!
