//! What a look at a worker's directories says, in terms of what the system
//! reported of them.

use crate::access_laws::{closed_to_strangers, is_exact_list, says_why, told};
use crate::access_laws::{lemma_trusted_ancestor, lemma_worker_directory};
use crate::descriptor;
use crate::error::{ErrorKind, PlatformError};
use crate::layout::{PolicyModel, WorkerDirectoryLayout, WorkerDirectoryNode};
use crate::worker_create::{
    begin_worker_creation, check_worker_directory_node, classify_worker_directory_inspection_error,
    inspect_worker_directory_node, retire_succeeded_worker_directory_evidence, CreationChecks,
    InspectionFacts, WorkerDirectoryInspectionIssue, WorkerDirectoryNodeInspection,
};
use vstd::prelude::*;

verus! {

/// Whether a directory belongs to a layout: the root and the five directories in
/// it always do, and of the directories above it those that lie below the
/// directory that creation starts from.
pub open spec fn belongs(layout: &WorkerDirectoryLayout, node: WorkerDirectoryNode) -> bool {
    match node {
        WorkerDirectoryNode::Support { ordinal } => {
            &&& layout@.policy matches PolicyModel::CreateMissingFrom { anchor }
            &&& layout@.root.prefix == anchor.prefix
            &&& anchor.components.len() + ordinal + 1 < layout@.root.components.len()
            &&& layout@.root.components.take(anchor.components.len() as int) == anchor.components
        },
        _ => true,
    }
}

/// What a failure of the system says of a directory: that there is none, that a
/// rule refused it, or nothing.
pub open spec fn says(failure: PlatformError, inspection: WorkerDirectoryNodeInspection) -> bool {
    let (kind, code) = match failure {
        PlatformError::Policy { kind, .. } => (kind, None),
        PlatformError::Counted { kind, .. } => (kind, None),
        PlatformError::Native { kind, code } => (kind, code),
    };
    &&& inspection is Absent <==> kind == ErrorKind::NotFound
    &&& kind == ErrorKind::PermissionDenied && code is None <==> inspection
        == WorkerDirectoryNodeInspection::Conflict(
        WorkerDirectoryInspectionIssue::UnsafeOrConflictingState,
    )
    &&& inspection is Absent || inspection is Conflict || inspection
        == WorkerDirectoryNodeInspection::Unknowable(
        WorkerDirectoryInspectionIssue::ObservationUnavailable,
    )
}

/// Failures are told apart by their kind, and by whether the system reported them.
pub proof fn failures_say_what_they_are(
    failure: PlatformError,
    inspection: WorkerDirectoryNodeInspection,
)
    requires
        call_ensures(classify_worker_directory_inspection_error, (failure,), inspection),
    ensures
        says(failure, inspection),
{
}

/// A directory above the root is healthy exactly where it belongs to the layout,
/// everything about it could be found out, the worker or the system owns it, no
/// entry of its list lets a stranger replace it or add to it, and its path leads
/// to the same directory twice. Whether its list inherits does not matter, nor
/// what else it grants. The root and the five directories in it must besides
/// belong to the worker and carry exactly the worker's list.
pub proof fn directories_are_healthy_when_they_are_safe(
    layout: &WorkerDirectoryLayout,
    node: WorkerDirectoryNode,
    facts: &InspectionFacts,
    inspection: WorkerDirectoryNodeInspection,
)
    requires
        call_ensures(inspect_worker_directory_node, (layout, node, facts), inspection),
    ensures
        inspection is Healthy <==> {
            let entries = facts.descriptor.entries->Ok_0@;
            let owner = facts.descriptor.owner;
            &&& belongs(layout, node)
            &&& facts.principal is Ok && facts.path is Ok && facts.opened is Ok && facts.rules is Ok
            &&& told(facts.descriptor)
            &&& if node is Support {
                &&& owner.worker || owner.system || owner.administrators || owner.trusted_installer
                &&& closed_to_strangers(entries, 0x500d_0046, true)
            } else {
                &&& owner.worker
                &&& facts.descriptor.control matches Ok(control) && control & 0x1000 != 0
                &&& is_exact_list(
                    entries,
                    3,
                    if facts.owner_is_management {
                        None
                    } else {
                        Some(0x001f_01ffu32)
                    },
                )
            }
            &&& facts.identity is Ok && facts.reopened is Ok
            &&& facts.identity->Ok_0 == facts.reopened->Ok_0
        },
{
    lemma_verdicts(facts);
    lemma_belongs(layout, node);
}

/// Whatever is not healthy is reported as what kept it from being so: a directory
/// of no layout is in conflict, a principal that changed or has no rules is
/// reported as such, what could not be opened by its failure, and what is there
/// but not as it should be as a conflict.
pub proof fn directories_are_reported_as_what_they_are(
    layout: &WorkerDirectoryLayout,
    node: WorkerDirectoryNode,
    facts: &InspectionFacts,
    inspection: WorkerDirectoryNodeInspection,
)
    requires
        call_ensures(inspect_worker_directory_node, (layout, node, facts), inspection),
    ensures
        !belongs(layout, node) ==> inspection == WorkerDirectoryNodeInspection::Conflict(
            WorkerDirectoryInspectionIssue::UnsafeOrConflictingState,
        ),
        belongs(layout, node) && facts.principal is Err ==> inspection
            == WorkerDirectoryNodeInspection::Unknowable(
            WorkerDirectoryInspectionIssue::PrincipalDrift,
        ),
        belongs(layout, node) && facts.principal is Ok ==> {
            &&& facts.path matches Err(failure) ==> says(failure, inspection)
            &&& facts.path is Ok && facts.opened is Err ==> says(
                facts.opened->Err_0,
                inspection,
            )
            &&& facts.path is Ok && facts.opened is Ok && facts.rules is Err ==> inspection
                == WorkerDirectoryNodeInspection::Unknowable(
                WorkerDirectoryInspectionIssue::PrincipalDrift,
            )
            &&& facts.path is Ok && facts.opened is Ok && facts.rules is Ok ==> {
                &&& facts.descriptor.query matches Err(failure) ==> says(failure, inspection)
                &&& told(facts.descriptor) && facts.descriptor.control is Ok && facts.identity is Ok
                    && facts.reopened is Ok && !(inspection is Healthy) ==> inspection
                    == WorkerDirectoryNodeInspection::Conflict(
                    WorkerDirectoryInspectionIssue::UnsafeOrConflictingState,
                )
            }
        },
{
    lemma_verdicts(facts);
    lemma_belongs(layout, node);
}

pub(crate) proof fn lemma_belongs(layout: &WorkerDirectoryLayout, node: WorkerDirectoryNode)
    ensures
        crate::layout::node_path(layout@, node) is Some <==> belongs(layout, node),
{
}

proof fn lemma_verdicts(facts: &InspectionFacts)
    ensures
        descriptor::trusted_ancestor_verdict(facts.descriptor, false) is Ok <==> {
            let owner = facts.descriptor.owner;
            &&& told(facts.descriptor)
            &&& owner.worker || owner.system || owner.administrators || owner.trusted_installer
            &&& closed_to_strangers(facts.descriptor.entries->Ok_0@, 0x500d_0046, true)
        },
        descriptor::worker_directory_verdict(facts.descriptor, facts.owner_is_management) is Ok <==> {
            &&& told(facts.descriptor)
            &&& facts.descriptor.control matches Ok(control) && control & 0x1000 != 0
            &&& facts.descriptor.owner.worker
            &&& is_exact_list(
                facts.descriptor.entries->Ok_0@,
                3,
                if facts.owner_is_management {
                    None
                } else {
                    Some(0x001f_01ffu32)
                },
            )
        },
        says_why(
            facts.descriptor,
            descriptor::trusted_ancestor_verdict(facts.descriptor, false),
        ),
        says_why(
            facts.descriptor,
            descriptor::worker_directory_verdict(facts.descriptor, facts.owner_is_management),
        ),
{
    lemma_trusted_ancestor(
        &facts.descriptor,
        false,
        descriptor::trusted_ancestor_verdict(facts.descriptor, false),
    );
    lemma_worker_directory(
        &facts.descriptor,
        facts.owner_is_management,
        descriptor::worker_directory_verdict(facts.descriptor, facts.owner_is_management),
    );
}

/// Only directories of a layout are made or given up.
pub proof fn only_directories_of_the_layout_are_dealt_with(
    layout: &WorkerDirectoryLayout,
    node: WorkerDirectoryNode,
    checked: Result<(), PlatformError>,
    retired: Result<(), PlatformError>,
)
    requires
        call_ensures(check_worker_directory_node, (layout, node), checked),
        call_ensures(retire_succeeded_worker_directory_evidence, (layout, node), retired),
    ensures
        checked is Ok <==> belongs(layout, node),
        retired is Ok <==> belongs(layout, node),
        checked matches Err(failure) ==> failure matches PlatformError::Policy {
            kind: ErrorKind::PermissionDenied,
            ..
        },
        retired == checked,
{
    lemma_belongs(layout, node);
}

/// A change is begun exactly where nothing spoke against it, and takes a privilege
/// exactly where the directories are for someone else. Otherwise the earliest
/// thing that spoke against it is reported.
pub proof fn changes_begin_where_nothing_speaks_against_them(
    checks: &CreationChecks,
    result: Result<bool, PlatformError>,
)
    requires
        call_ensures(begin_worker_creation, (checks,), result),
    ensures
        result is Ok <==> {
            &&& checks.start is Ok && checks.rules is Ok && checks.anchor is Ok
            &&& checks.current is Ok && checks.lock is Ok && checks.reverified is Ok
            &&& checks.principal is Ok && checks.owner_matches_current is Ok
            &&& checks.handed_on is Ok
        },
        result matches Ok(privileged) ==> privileged == !checks.owner_matches_current->Ok_0,
        checks.start matches Err(failure) ==> result == Err::<bool, _>(failure),
        checks.start is Ok && checks.rules is Err ==> result == Err::<bool, _>(
            checks.rules->Err_0,
        ),
        checks.start is Ok && checks.rules is Ok && checks.anchor is Err ==> result == Err::<
            bool,
            _,
        >(checks.anchor->Err_0),
        checks.start is Ok && checks.rules is Ok && checks.anchor is Ok && checks.current is Err
            ==> result == Err::<bool, _>(checks.current->Err_0),
        checks.start is Ok && checks.rules is Ok && checks.anchor is Ok && checks.current is Ok
            && checks.lock is Err ==> result == Err::<bool, _>(checks.lock->Err_0),
        checks.start is Ok && checks.rules is Ok && checks.anchor is Ok && checks.current is Ok
            && checks.lock is Ok && checks.reverified is Err ==> result == Err::<bool, _>(
            checks.reverified->Err_0,
        ),
{
    reveal_with_fuel(crate::error::first_refusal, 9);
    let all = seq![
        checks.start,
        checks.rules,
        checks.anchor,
        checks.current,
        checks.lock,
        checks.reverified,
        checks.principal,
    ];
    assert(all.drop_first()[0] == checks.rules);
    assert(all.drop_first().drop_first()[0] == checks.anchor);
    assert(all.drop_first().drop_first().drop_first()[0] == checks.current);
    assert(all.drop_first().drop_first().drop_first().drop_first()[0] == checks.lock);
    assert(all.drop_first().drop_first().drop_first().drop_first().drop_first()[0]
        == checks.reverified);
    assert(all.drop_first().drop_first().drop_first().drop_first().drop_first().drop_first()[0]
        == checks.principal);
}

} // verus!
