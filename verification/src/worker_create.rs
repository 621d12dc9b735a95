//! Making and inspecting a worker's directories, from what was found out to what
//! is done about it.

use crate::descriptor;
use crate::descriptor::{
    verify_trusted_worker_ancestor, verify_worker_directory_security, SecurityFacts,
};
use crate::error;
use crate::error::{permission_denied, ErrorKind, PlatformError};
use crate::evidence::{
    WorkerDirectoryCreation, WorkerDirectoryCreationError, WorkerDirectoryNodeCreationError,
};
use crate::layout;
use crate::layout::{LayoutModel, WorkerDirectoryLayout, WorkerDirectoryNode};
use crate::layout_mutation::WorkerMutationEvidence;
use crate::node_mutation::WorkerNodeMutationEvidence;
use crate::privilege;
use crate::privilege::{
    reconcile_windows_privileged_worker_mutation, PrivilegeError, WindowsPrivilegedWorkerMutation,
    WindowsPrivilegedWorkerMutationResolution,
};
use crate::worker_ops::WorkerDirectoryIdentity;
use crate::worker_outcome;
use crate::worker_outcome::{
    finish_worker_directory_mutation, finish_worker_directory_node_mutation, WorkerDirectoryLease,
    WorkerDirectoryNodeCreateOutcome,
};
use vstd::prelude::*;

verus! {

// ---------------------------------------------------------------------------
// Inspection
// ---------------------------------------------------------------------------

/// What is wrong with a directory.
#[derive(Clone, Copy, Debug, PartialEq, Eq, Structural)]
pub enum WorkerDirectoryInspectionIssue {
    PrincipalDrift,
    UnsafeOrConflictingState,
    ObservationUnavailable,
}

/// What a look at a directory says.
#[derive(Clone, Copy, Debug, PartialEq, Eq, Structural)]
pub enum WorkerDirectoryNodeInspection {
    Absent,
    Healthy,
    Conflict(WorkerDirectoryInspectionIssue),
    Unknowable(WorkerDirectoryInspectionIssue),
}

/// What a failure says of a directory: that it is missing, that a rule refused
/// it, or nothing.
pub open spec fn classified(failure: PlatformError) -> WorkerDirectoryNodeInspection {
    if failure.spec_kind() == ErrorKind::NotFound {
        WorkerDirectoryNodeInspection::Absent
    } else if failure.spec_kind() == ErrorKind::PermissionDenied && error::native_code(
        failure,
    ) is None {
        WorkerDirectoryNodeInspection::Conflict(
            WorkerDirectoryInspectionIssue::UnsafeOrConflictingState,
        )
    } else {
        WorkerDirectoryNodeInspection::Unknowable(
            WorkerDirectoryInspectionIssue::ObservationUnavailable,
        )
    }
}

/// Judges a failure to look at a directory.
pub fn classify_worker_directory_inspection_error(failure: PlatformError) -> (inspection:
    WorkerDirectoryNodeInspection)
    ensures
        inspection == classified(failure),
{
    match failure.kind() {
        ErrorKind::NotFound => WorkerDirectoryNodeInspection::Absent,
        ErrorKind::PermissionDenied => {
            if failure.raw_os_error().is_none() {
                WorkerDirectoryNodeInspection::Conflict(
                    WorkerDirectoryInspectionIssue::UnsafeOrConflictingState,
                )
            } else {
                WorkerDirectoryNodeInspection::Unknowable(
                    WorkerDirectoryInspectionIssue::ObservationUnavailable,
                )
            }
        },
        _ => WorkerDirectoryNodeInspection::Unknowable(
            WorkerDirectoryInspectionIssue::ObservationUnavailable,
        ),
    }
}

/// What was found out of a directory: whether the worker's principal is still the
/// planned one, whether the path is normalized and could be opened, whether the
/// rules of a worker's directory could be written down, the descriptor of what
/// was opened, and which directory it is, by itself and by its path.
#[derive(Debug)]
pub struct InspectionFacts {
    pub principal: Result<(), PlatformError>,
    pub path: Result<(), PlatformError>,
    pub opened: Result<(), PlatformError>,
    pub rules: Result<(), PlatformError>,
    pub descriptor: SecurityFacts,
    pub owner_is_management: bool,
    pub identity: Result<WorkerDirectoryIdentity, PlatformError>,
    pub reopened: Result<WorkerDirectoryIdentity, PlatformError>,
}

/// Whether a directory that was opened is safe and stayed where it was.
pub open spec fn node_verdict(node: WorkerDirectoryNode, facts: InspectionFacts) -> Result<
    (),
    PlatformError,
> {
    let safe = if node is Support {
        descriptor::trusted_ancestor_verdict(facts.descriptor, false)
    } else {
        descriptor::worker_directory_verdict(facts.descriptor, facts.owner_is_management)
    };
    match safe {
        Err(failure) => Err(failure),
        Ok(()) => match facts.identity {
            Err(failure) => Err(failure),
            Ok(identity) => match facts.reopened {
                Err(failure) => Err(failure),
                Ok(reopened) => if reopened == identity {
                    Ok(())
                } else {
                    Err(error::denied("worker directory path changed during inspection"))
                },
            },
        },
    }
}

fn judge_node(node: WorkerDirectoryNode, facts: &InspectionFacts) -> (result: Result<
    (),
    PlatformError,
>)
    ensures
        result == node_verdict(node, *facts),
{
    let safe = match node {
        WorkerDirectoryNode::Support { ordinal: _ } => verify_trusted_worker_ancestor(
            &facts.descriptor,
            false,
        ),
        _ => verify_worker_directory_security(&facts.descriptor, facts.owner_is_management),
    };
    match safe {
        Ok(()) => {},
        Err(failure) => {
            return Err(failure);
        },
    }
    match facts.identity {
        Err(failure) => Err(failure),
        Ok(identity) => match facts.reopened {
            Err(failure) => Err(failure),
            Ok(reopened) => {
                if reopened.same_as(&identity) {
                    Ok(())
                } else {
                    Err(permission_denied("worker directory path changed during inspection"))
                }
            },
        },
    }
}

/// What a look at a directory of a layout says.
pub open spec fn inspected(
    layout: LayoutModel,
    node: WorkerDirectoryNode,
    facts: InspectionFacts,
) -> WorkerDirectoryNodeInspection {
    if layout::node_path(layout, node) is None {
        WorkerDirectoryNodeInspection::Conflict(
            WorkerDirectoryInspectionIssue::UnsafeOrConflictingState,
        )
    } else if facts.principal is Err {
        WorkerDirectoryNodeInspection::Unknowable(WorkerDirectoryInspectionIssue::PrincipalDrift)
    } else {
        match facts.path {
            Err(failure) => classified(failure),
            Ok(()) => match facts.opened {
                Err(failure) => classified(failure),
                Ok(()) => if facts.rules is Err {
                    WorkerDirectoryNodeInspection::Unknowable(
                        WorkerDirectoryInspectionIssue::PrincipalDrift,
                    )
                } else {
                    match node_verdict(node, facts) {
                        Ok(()) => WorkerDirectoryNodeInspection::Healthy,
                        Err(failure) => classified(failure),
                    }
                },
            },
        }
    }
}

/// Judges what was found out of a directory of a layout.
pub fn inspect_worker_directory_node(
    layout: &WorkerDirectoryLayout,
    node: WorkerDirectoryNode,
    facts: &InspectionFacts,
) -> (inspection: WorkerDirectoryNodeInspection)
    ensures
        inspection == inspected(layout@, node, *facts),
{
    if !layout.has_node(node) {
        return WorkerDirectoryNodeInspection::Conflict(
            WorkerDirectoryInspectionIssue::UnsafeOrConflictingState,
        );
    }
    match facts.principal {
        Ok(()) => {},
        Err(_) => {
            return WorkerDirectoryNodeInspection::Unknowable(
                WorkerDirectoryInspectionIssue::PrincipalDrift,
            );
        },
    }
    match facts.path {
        Ok(()) => {},
        Err(failure) => {
            return classify_worker_directory_inspection_error(failure);
        },
    }
    match facts.opened {
        Ok(()) => {},
        Err(failure) => {
            return classify_worker_directory_inspection_error(failure);
        },
    }
    match facts.rules {
        Ok(()) => {},
        Err(_) => {
            return WorkerDirectoryNodeInspection::Unknowable(
                WorkerDirectoryInspectionIssue::PrincipalDrift,
            );
        },
    }
    match judge_node(node, facts) {
        Ok(()) => WorkerDirectoryNodeInspection::Healthy,
        Err(failure) => classify_worker_directory_inspection_error(failure),
    }
}

/// Nothing is called healthy that is not safe, or not where it should be.
pub proof fn healthy_directories_are_safe(
    layout: LayoutModel,
    node: WorkerDirectoryNode,
    facts: InspectionFacts,
)
    ensures
        inspected(layout, node, facts) is Healthy <==> {
            &&& layout::node_path(layout, node) is Some
            &&& facts.principal is Ok && facts.path is Ok && facts.opened is Ok && facts.rules is Ok
            &&& node_verdict(node, facts) is Ok
        },
{
}

// ---------------------------------------------------------------------------
// Making
// ---------------------------------------------------------------------------

/// What was found out before a change, in this order: where it starts, whether
/// the rules of a worker's directory could be written down, whether the directory
/// to be locked could be found, whether the current user could be looked up,
/// whether the lock was got, whether its directory is still the same, whether the
/// worker's principal is still the planned one, whether that is the current
/// user, and whether the locked directory could be handed on.
#[derive(Debug)]
pub struct CreationChecks {
    pub start: Result<(), PlatformError>,
    pub rules: Result<(), PlatformError>,
    pub anchor: Result<(), PlatformError>,
    pub current: Result<(), PlatformError>,
    pub lock: Result<(), PlatformError>,
    pub reverified: Result<(), PlatformError>,
    pub principal: Result<(), PlatformError>,
    pub owner_matches_current: Result<bool, PlatformError>,
    pub handed_on: Result<(), PlatformError>,
}

/// Whether a change may be made, and whether it needs a privilege: it does where
/// the directories are for someone else.
pub open spec fn creation_needs_privilege(checks: CreationChecks) -> Result<bool, PlatformError> {
    match error::first_refusal(
        seq![
            checks.start,
            checks.rules,
            checks.anchor,
            checks.current,
            checks.lock,
            checks.reverified,
            checks.principal,
        ],
    ) {
        Err(failure) => Err(failure),
        Ok(()) => match checks.owner_matches_current {
            Err(failure) => Err(failure),
            Ok(matches) => match checks.handed_on {
                Err(failure) => Err(failure),
                Ok(()) => Ok(!matches),
            },
        },
    }
}

/// Decides whether a change may be made, and whether it needs a privilege.
pub fn begin_worker_creation(checks: &CreationChecks) -> (result: Result<bool, PlatformError>)
    ensures
        result == creation_needs_privilege(*checks),
{
    let required = [
        checks.start,
        checks.rules,
        checks.anchor,
        checks.current,
        checks.lock,
        checks.reverified,
        checks.principal,
    ];
    let all = error::require_all(&required);
    assert(required@ =~= seq![
        checks.start,
        checks.rules,
        checks.anchor,
        checks.current,
        checks.lock,
        checks.reverified,
        checks.principal,
    ]);
    match all {
        Ok(()) => {},
        Err(failure) => {
            return Err(failure);
        },
    }
    match checks.owner_matches_current {
        Err(failure) => Err(failure),
        Ok(matches) => match checks.handed_on {
            Err(failure) => Err(failure),
            Ok(()) => Ok(!matches),
        },
    }
}

/// What came of a change: it did not start, or it ran, and its privilege was
/// given back or was not.
#[derive(Debug)]
pub enum MutationRun<Evidence> {
    NotStarted(PrivilegeError),
    Ran {
        mutation: WindowsPrivilegedWorkerMutation<Evidence>,
        cleanup: Result<(), PrivilegeError>,
    },
}

/// What a run comes to. A change that needs no privilege has none to give back.
pub open spec fn settled_run<Evidence>(checks: CreationChecks, run: MutationRun<Evidence>) -> Result<
    WindowsPrivilegedWorkerMutationResolution<Evidence>,
    PrivilegeError,
> {
    match creation_needs_privilege(checks) {
        Err(failure) => Err(PrivilegeError::Single(failure)),
        Ok(privileged) => match run {
            MutationRun::NotStarted(failure) => Err(failure),
            MutationRun::Ran { mutation, cleanup } => Ok(
                privilege::reconciled(
                    mutation,
                    if privileged {
                        cleanup
                    } else {
                        Ok(())
                    },
                ),
            ),
        },
    }
}

/// Settles a run.
pub fn settle_run<Evidence>(checks: &CreationChecks, run: MutationRun<Evidence>) -> (result: Result<
    WindowsPrivilegedWorkerMutationResolution<Evidence>,
    PrivilegeError,
>)
    ensures
        result == settled_run(*checks, run),
{
    match begin_worker_creation(checks) {
        Err(failure) => Err(PrivilegeError::Single(failure)),
        Ok(privileged) => match run {
            MutationRun::NotStarted(failure) => Err(failure),
            MutationRun::Ran { mutation, cleanup } => {
                let given_back = if privileged {
                    cleanup
                } else {
                    Ok(())
                };
                Ok(reconcile_windows_privileged_worker_mutation(mutation, given_back))
            },
        },
    }
}

/// Settles the making of a layout: what was made is handed over, or is held by
/// the failure.
pub fn create_worker_directory_layout<Lease>(
    layout: &WorkerDirectoryLayout,
    checks: &CreationChecks,
    run: MutationRun<WorkerMutationEvidence>,
    lease: Lease,
) -> (result: Result<
    WorkerDirectoryCreation<WorkerDirectoryLease<Lease>>,
    WorkerDirectoryCreationError<Lease>,
>)
    requires
        run matches MutationRun::Ran { mutation, .. } ==> (mutation.operation_error is None
            ==> worker_outcome::is_whole(mutation.evidence)),
    ensures
        match settled_run(*checks, run) {
            Err(failure) => result == Err::<WorkerDirectoryCreation<WorkerDirectoryLease<Lease>>, _>(
                WorkerDirectoryCreationError::<Lease>::Native { error: failure },
            ),
            Ok(resolution) => worker_outcome::layout_settled(
                resolution,
                layout@.root,
                lease,
                result,
            ),
        },
{
    match settle_run(checks, run) {
        Err(failure) => Err(WorkerDirectoryCreationError::native(failure)),
        Ok(resolution) => finish_worker_directory_mutation(resolution, layout.root(), lease),
    }
}

/// Whether a directory is one of the layout.
pub open spec fn membership_verdict(layout: LayoutModel, node: WorkerDirectoryNode) -> Result<
    (),
    PlatformError,
> {
    if layout::node_path(layout, node) is None {
        Err(error::denied("worker directory node is outside the closed materialization set"))
    } else {
        Ok(())
    }
}

/// Checks that a directory is one of the layout, before anything is made.
pub fn check_worker_directory_node(layout: &WorkerDirectoryLayout, node: WorkerDirectoryNode) -> (
result: Result<(), PlatformError>)
    ensures
        result == membership_verdict(layout@, node),
{
    if layout.has_node(node) {
        Ok(())
    } else {
        Err(permission_denied("worker directory node is outside the closed materialization set"))
    }
}

/// Settles the making of one directory. Only a directory of the layout is made.
pub fn create_worker_directory_node<Lease>(
    layout: &WorkerDirectoryLayout,
    node: WorkerDirectoryNode,
    checks: &CreationChecks,
    run: MutationRun<WorkerNodeMutationEvidence>,
    lease: Lease,
) -> (result: Result<
    WorkerDirectoryNodeCreateOutcome<Lease>,
    WorkerDirectoryNodeCreationError<Lease>,
>)
    requires
        run matches MutationRun::Ran { mutation, .. } ==> (mutation.operation_error is None
            ==> mutation.evidence is Complete),
    ensures
        match membership_verdict(layout@, node) {
            Err(refusal) => result == Err::<WorkerDirectoryNodeCreateOutcome<Lease>, _>(
                WorkerDirectoryNodeCreationError::<Lease>::Native {
                    error: PrivilegeError::Single(refusal),
                },
            ),
            Ok(()) => match settled_run(*checks, run) {
                Err(failure) => result == Err::<WorkerDirectoryNodeCreateOutcome<Lease>, _>(
                    WorkerDirectoryNodeCreationError::<Lease>::Native { error: failure },
                ),
                Ok(resolution) => worker_outcome::node_settled(
                    resolution,
                    layout@.root,
                    lease,
                    result,
                ),
            },
        },
{
    match check_worker_directory_node(layout, node) {
        Ok(()) => {},
        Err(refusal) => {
            return Err(
                WorkerDirectoryNodeCreationError::native(PrivilegeError::Single(refusal)),
            );
        },
    }
    match settle_run(checks, run) {
        Err(failure) => Err(WorkerDirectoryNodeCreationError::native(failure)),
        Ok(resolution) => finish_worker_directory_node_mutation(resolution, layout.root(), lease),
    }
}

/// Gives up what is kept of a directory once it is recorded elsewhere. Nothing
/// is kept apart from the directory itself.
pub fn retire_succeeded_worker_directory_evidence(
    layout: &WorkerDirectoryLayout,
    node: WorkerDirectoryNode,
) -> (result: Result<(), PlatformError>)
    ensures
        result == membership_verdict(layout@, node),
{
    check_worker_directory_node(layout, node)
}

} // verus!
