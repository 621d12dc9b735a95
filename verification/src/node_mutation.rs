//! Making one directory of a worker's layout, where everything above it is there
//! already.

use crate::error;
use crate::error::{invalid_data, permission_denied, PlatformError};
use crate::layout;
use crate::layout::{PathModel, WorkerDirectoryNode, WorkerPath};
use crate::layout_mutation;
use crate::layout_mutation::{place_worker_directory, CreatedWorkerDirectoryEvidence, NodeRecord};
use crate::worker_ops;
use crate::worker_ops::{
    ask, RetainedCreatedWorkerDirectory, WorkerAction, WorkerDirectoryNodeDisposition,
    WorkerDirectoryRef, WorkerMutationControl, WorkerReply, WorkerStep, WorkerTarget,
};
use vstd::prelude::*;

verus! {

// ---------------------------------------------------------------------------
// Places and paths
// ---------------------------------------------------------------------------

/// The path that is left of a root with `component_count` components when it is
/// cut behind component number `index`.
pub open spec fn path_prefix(root: PathModel, component_count: nat, index: nat) -> PathModel {
    let cut = component_count - index - 1;
    if cut <= 0 {
        root
    } else if cut >= root.components.len() {
        layout::shortened(root, 0)
    } else {
        layout::shortened(root, (root.components.len() - cut) as nat)
    }
}

/// Cuts a root's path behind one of its components.
pub fn worker_path_prefix(root: &WorkerPath, component_count: usize, index: usize) -> (path:
    WorkerPath)
    ensures
        path@ == path_prefix(root@, component_count as nat, index as nat),
        path.prefix@ == root.prefix@,
{
    let length: usize = root.components.len();
    if index >= component_count || component_count - index - 1 == 0 {
        return root.clone();
    }
    let cut: usize = component_count - index - 1;
    if cut >= length {
        root.first(0)
    } else {
        root.first(length - cut)
    }
}

/// The name of a directory in a root.
pub open spec fn child_name(ordinal: nat) -> Seq<char> {
    if ordinal == 0 {
        "repos"@
    } else if ordinal == 1 {
        "jobs"@
    } else if ordinal == 2 {
        "cache"@
    } else if ordinal == 3 {
        "artifacts"@
    } else {
        "logs"@
    }
}

/// The path of a place of a layout.
pub open spec fn target_path(root: PathModel, target: WorkerTarget) -> PathModel {
    match target {
        WorkerTarget::Component { index } => path_prefix(
            root,
            root.components.len(),
            index as nat,
        ),
        WorkerTarget::Child { ordinal } => layout::joined(
            root,
            layout::ascii_units(child_name(ordinal as nat)),
        ),
    }
}

/// The path of a place of a layout.
pub fn worker_target_path(root: &WorkerPath, target: WorkerTarget) -> (path: WorkerPath)
    ensures
        path@ == target_path(root@, target),
        path.prefix@ == root.prefix@,
{
    match target {
        WorkerTarget::Component { index } => worker_path_prefix(root, root.components.len(), index),
        WorkerTarget::Child { ordinal } => {
            let name: &str = if ordinal == 0 {
                "repos"
            } else if ordinal == 1 {
                "jobs"
            } else if ordinal == 2 {
                "cache"
            } else if ordinal == 3 {
                "artifacts"
            } else {
                "logs"
            };
            proof {
                layout::lemma_child_names();
            }
            root.join(layout::to_units(name).as_slice())
        },
    }
}

/// What is to be made: one directory of a layout whose root has
/// `component_count` components, from number `first_creatable` on.
#[derive(Clone, Copy, Debug, PartialEq, Eq, Structural)]
pub struct NodePlan {
    pub component_count: usize,
    pub first_creatable: usize,
    pub node: WorkerDirectoryNode,
    pub control: WorkerMutationControl,
}

impl NodePlan {
    /// At least the root itself may be made.
    pub open spec fn well_formed(self) -> bool {
        self.first_creatable < self.component_count
    }
}

/// The number of a directory in the root.
pub open spec fn child_ordinal(node: WorkerDirectoryNode) -> Option<usize> {
    match node {
        WorkerDirectoryNode::Repos => Some(0),
        WorkerDirectoryNode::Jobs => Some(1),
        WorkerDirectoryNode::Cache => Some(2),
        WorkerDirectoryNode::Artifacts => Some(3),
        WorkerDirectoryNode::Logs => Some(4),
        _ => None,
    }
}

/// The place of a directory: a support directory stands above the root.
pub open spec fn node_target(plan: NodePlan) -> Result<WorkerTarget, PlatformError> {
    match plan.node {
        WorkerDirectoryNode::Support { ordinal } => if plan.first_creatable + ordinal
            > usize::MAX {
            Err(error::malformed("worker support ordinal overflows"))
        } else if plan.first_creatable + ordinal + 1 >= plan.component_count {
            Err(error::denied("worker support node is outside the closed materialization set"))
        } else {
            Ok(WorkerTarget::Component { index: (plan.first_creatable + ordinal) as usize })
        },
        WorkerDirectoryNode::Root => Ok(
            WorkerTarget::Component { index: (plan.component_count - 1) as usize },
        ),
        node => Ok(WorkerTarget::Child { ordinal: child_ordinal(node)->0 }),
    }
}

/// Finds the place of a directory.
pub fn worker_node_target(plan: &NodePlan) -> (result: Result<WorkerTarget, PlatformError>)
    requires
        plan.well_formed(),
    ensures
        result == node_target(*plan),
{
    match plan.node {
        WorkerDirectoryNode::Support { ordinal } => {
            let index: usize = match plan.first_creatable.checked_add(ordinal as usize) {
                Some(index) => index,
                None => {
                    return Err(invalid_data("worker support ordinal overflows"));
                },
            };
            if index >= plan.component_count - 1 {
                return Err(
                    permission_denied(
                        "worker support node is outside the closed materialization set",
                    ),
                );
            }
            Ok(WorkerTarget::Component { index })
        },
        WorkerDirectoryNode::Root => Ok(
            WorkerTarget::Component { index: plan.component_count - 1 },
        ),
        WorkerDirectoryNode::Repos => Ok(WorkerTarget::Child { ordinal: 0 }),
        WorkerDirectoryNode::Jobs => Ok(WorkerTarget::Child { ordinal: 1 }),
        WorkerDirectoryNode::Cache => Ok(WorkerTarget::Child { ordinal: 2 }),
        WorkerDirectoryNode::Artifacts => Ok(WorkerTarget::Child { ordinal: 3 }),
        WorkerDirectoryNode::Logs => Ok(WorkerTarget::Child { ordinal: 4 }),
    }
}

// ---------------------------------------------------------------------------
// The way to the directory's parent
// ---------------------------------------------------------------------------

/// A directory in which the one that is to be made stands, and the number of the
/// next operation.
#[derive(Clone, Copy, Debug)]
pub struct NodeParent {
    pub directory: WorkerDirectoryRef,
    pub next: usize,
}

/// Following the path from component number `index` to the one before
/// `target_index`. All of it must be there and be trusted.
pub open spec fn approached(
    plan: NodePlan,
    replies: Seq<WorkerReply>,
    at: nat,
    index: nat,
    target_index: nat,
    directory: WorkerDirectoryRef,
) -> WorkerStep<NodeParent>
    decreases target_index - index,
{
    if index >= target_index {
        WorkerStep::Next(NodeParent { directory, next: at as usize })
    } else {
        match worker_ops::asked(
            replies,
            at,
            WorkerAction::Open {
                parent: directory,
                target: WorkerTarget::Component { index: index as usize },
            },
        ) {
            WorkerStep::Ask(action) => WorkerStep::Ask(action),
            WorkerStep::Fail(failure) => WorkerStep::Fail(failure),
            WorkerStep::Next(_) => {
                let opened = WorkerDirectoryRef::Opened { at: at as usize };
                match worker_ops::asked(
                    replies,
                    at + 1,
                    WorkerAction::VerifyAncestor { directory: opened, allow_create: false },
                ) {
                    WorkerStep::Ask(action) => WorkerStep::Ask(action),
                    WorkerStep::Fail(failure) => WorkerStep::Fail(failure),
                    WorkerStep::Next(_) => approached(
                        plan,
                        replies,
                        at + 2,
                        index + 1,
                        target_index,
                        opened,
                    ),
                }
            },
        }
    }
}

/// The number of the component before which the way to a place ends.
pub open spec fn way_end(plan: NodePlan, target: WorkerTarget) -> nat {
    match target {
        WorkerTarget::Component { index } => index as nat,
        WorkerTarget::Child { ordinal } => (plan.component_count - 1) as nat,
    }
}

/// The way to the directory in which a place is. Where that is the root, it must
/// have a worker's rules.
pub open spec fn node_parent(plan: NodePlan, replies: Seq<WorkerReply>, target: WorkerTarget) -> WorkerStep<
    NodeParent,
> {
    let way = approached(
        plan,
        replies,
        0,
        plan.first_creatable as nat,
        way_end(plan, target),
        WorkerDirectoryRef::Anchor,
    );
    match way {
        WorkerStep::Next(above) => if target is Component {
            way
        } else {
            match worker_ops::asked(
                replies,
                above.next as nat,
                WorkerAction::Open {
                    parent: above.directory,
                    target: WorkerTarget::Component { index: (plan.component_count - 1) as usize },
                },
            ) {
                WorkerStep::Ask(action) => WorkerStep::Ask(action),
                WorkerStep::Fail(failure) => WorkerStep::Fail(failure),
                WorkerStep::Next(_) => {
                    let root = WorkerDirectoryRef::Opened { at: above.next };
                    match worker_ops::asked(
                        replies,
                        (above.next + 1) as nat,
                        WorkerAction::VerifyCanonical { directory: root },
                    ) {
                        WorkerStep::Ask(action) => WorkerStep::Ask(action),
                        WorkerStep::Fail(failure) => WorkerStep::Fail(failure),
                        WorkerStep::Next(_) => WorkerStep::Next(
                            NodeParent { directory: root, next: (above.next + 2) as usize },
                        ),
                    }
                },
            }
        },
        _ => way,
    }
}

/// Finds the directory in which a place is.
pub fn prepare_worker_node_parent(
    plan: &NodePlan,
    replies: &[WorkerReply],
    target: WorkerTarget,
) -> (step: WorkerStep<NodeParent>)
    requires
        plan.well_formed(),
    ensures
        step == node_parent(*plan, replies@, target),
        step matches WorkerStep::Next(parent) ==> parent.next <= replies@.len(),
{
    let end: usize = match target {
        WorkerTarget::Component { index } => index,
        WorkerTarget::Child { ordinal: _ } => plan.component_count - 1,
    };
    let mut directory = WorkerDirectoryRef::Anchor;
    let mut at: usize = 0;
    let mut index: usize = plan.first_creatable;
    let ghost whole = approached(
        *plan,
        replies@,
        0,
        plan.first_creatable as nat,
        end as nat,
        WorkerDirectoryRef::Anchor,
    );
    while index < end
        invariant
            plan.well_formed(),
            end == way_end(*plan, target),
            at <= replies@.len(),
            whole == approached(
                *plan,
                replies@,
                0,
                plan.first_creatable as nat,
                end as nat,
                WorkerDirectoryRef::Anchor,
            ),
            whole == approached(
                *plan,
                replies@,
                at as nat,
                index as nat,
                end as nat,
                directory,
            ),
        decreases end - index,
    {
        match ask(
            replies,
            at,
            WorkerAction::Open { parent: directory, target: WorkerTarget::Component { index } },
        ) {
            WorkerStep::Ask(action) => {
                return WorkerStep::Ask(action);
            },
            WorkerStep::Fail(failure) => {
                return WorkerStep::Fail(failure);
            },
            WorkerStep::Next(_) => {},
        }
        let opened = WorkerDirectoryRef::Opened { at };
        match ask(
            replies,
            at + 1,
            WorkerAction::VerifyAncestor { directory: opened, allow_create: false },
        ) {
            WorkerStep::Ask(action) => {
                return WorkerStep::Ask(action);
            },
            WorkerStep::Fail(failure) => {
                return WorkerStep::Fail(failure);
            },
            WorkerStep::Next(_) => {},
        }
        directory = opened;
        at = at + 2;
        index = index + 1;
    }
    match target {
        WorkerTarget::Component { index: _ } => {
            return WorkerStep::Next(NodeParent { directory, next: at });
        },
        WorkerTarget::Child { ordinal: _ } => {},
    }
    let root_place = WorkerTarget::Component { index: plan.component_count - 1 };
    match ask(replies, at, WorkerAction::Open { parent: directory, target: root_place }) {
        WorkerStep::Ask(action) => {
            return WorkerStep::Ask(action);
        },
        WorkerStep::Fail(failure) => {
            return WorkerStep::Fail(failure);
        },
        WorkerStep::Next(_) => {},
    }
    let root = WorkerDirectoryRef::Opened { at };
    match ask(replies, at + 1, WorkerAction::VerifyCanonical { directory: root }) {
        WorkerStep::Ask(action) => WorkerStep::Ask(action),
        WorkerStep::Fail(failure) => WorkerStep::Fail(failure),
        WorkerStep::Next(_) => WorkerStep::Next(NodeParent { directory: root, next: at + 2 }),
    }
}

// ---------------------------------------------------------------------------
// The whole change
// ---------------------------------------------------------------------------

/// How far making a directory got, and what was made by then.
pub enum NodeRun {
    Ask { action: WorkerAction },
    Failed { failure: PlatformError, created: Seq<RetainedCreatedWorkerDirectory> },
    Complete { record: NodeRecord, created: Seq<RetainedCreatedWorkerDirectory> },
}

/// Whether a place must have a worker's own rules: the root and what is in it.
pub open spec fn is_canonical(plan: NodePlan) -> bool {
    !(plan.node is Support)
}

/// The last look at a directory that was placed: its path leads to it.
pub open spec fn node_confirmed(
    plan: NodePlan,
    replies: Seq<WorkerReply>,
    target: WorkerTarget,
    placed: layout_mutation::Placed,
    created: Seq<RetainedCreatedWorkerDirectory>,
) -> NodeRun {
    let injected = if placed.record.disposition == WorkerDirectoryNodeDisposition::Created {
        worker_ops::canonical_injection(plan.control, 1)
    } else {
        None
    };
    match injected {
        Some(failure) => NodeRun::Failed { failure, created },
        None => match worker_ops::asked(
            replies,
            placed.next as nat,
            WorkerAction::OpenPath { target },
        ) {
            WorkerStep::Ask(action) => NodeRun::Ask { action },
            WorkerStep::Fail(failure) => NodeRun::Failed { failure, created },
            WorkerStep::Next(identity) => if identity != placed.record.identity {
                NodeRun::Failed {
                    failure: error::denied("worker node path changed during creation"),
                    created,
                }
            } else {
                NodeRun::Complete { record: placed.record, created }
            },
        },
    }
}

/// Making a directory.
pub open spec fn node_run(plan: NodePlan, replies: Seq<WorkerReply>) -> NodeRun {
    let nothing = Seq::<RetainedCreatedWorkerDirectory>::empty();
    match worker_ops::canonical_injection(plan.control, 0) {
        Some(failure) => NodeRun::Failed { failure, created: nothing },
        None => match worker_ops::native_injection(plan.control, 0) {
            Some(failure) => NodeRun::Failed { failure, created: nothing },
            None => match node_target(plan) {
                Err(failure) => NodeRun::Failed { failure, created: nothing },
                Ok(target) => match node_parent(plan, replies, target) {
                    WorkerStep::Ask(action) => NodeRun::Ask { action },
                    WorkerStep::Fail(failure) => NodeRun::Failed { failure, created: nothing },
                    WorkerStep::Next(parent) => {
                        let (step, created) = layout_mutation::placed(
                            plan.control,
                            replies,
                            parent.next as nat,
                            nothing,
                            parent.directory,
                            target,
                            is_canonical(plan),
                        );
                        match step {
                            WorkerStep::Ask(action) => NodeRun::Ask { action },
                            WorkerStep::Fail(failure) => NodeRun::Failed { failure, created },
                            WorkerStep::Next(placed) => node_confirmed(
                                plan,
                                replies,
                                target,
                                placed,
                                created,
                            ),
                        }
                    },
                },
            },
        },
    }
}

/// What a change left: the directory, or what was made.
#[derive(Debug)]
pub enum WorkerNodeMutationEvidence {
    Complete { record: NodeRecord, created: CreatedWorkerDirectoryEvidence },
    Partial { created: CreatedWorkerDirectoryEvidence },
}

/// How far making a directory got.
#[derive(Debug)]
pub enum NodeStep {
    /// This operation is next.
    Ask(WorkerAction),
    /// It is over, with this failure or none.
    Done { failure: Option<PlatformError>, evidence: WorkerNodeMutationEvidence },
}

/// What a step says.
pub open spec fn node_run_of(step: NodeStep) -> NodeRun {
    match step {
        NodeStep::Ask(action) => NodeRun::Ask { action },
        NodeStep::Done {
            failure: None,
            evidence: WorkerNodeMutationEvidence::Complete { record, created },
        } => NodeRun::Complete { record, created: created.created@ },
        NodeStep::Done {
            failure: Some(failure),
            evidence: WorkerNodeMutationEvidence::Partial { created },
        } => NodeRun::Failed { failure, created: created.created@ },
        _ => arbitrary(),
    }
}

/// A step that holds together: a change that did not fail is complete.
pub open spec fn coherent_node_step(step: NodeStep) -> bool {
    match step {
        NodeStep::Ask(_) => true,
        NodeStep::Done { failure, evidence } => failure is None <==> evidence is Complete,
    }
}

fn failed(failure: PlatformError, created: CreatedWorkerDirectoryEvidence) -> (step: NodeStep)
    ensures
        node_run_of(step) == (NodeRun::Failed { failure, created: created.created@ }),
        coherent_node_step(step),
{
    NodeStep::Done {
        failure: Some(failure),
        evidence: WorkerNodeMutationEvidence::Partial { created },
    }
}

/// Makes a directory: given the replies to all operations so far, the next
/// operation, or what came of it all.
pub fn perform_worker_directory_node_mutation(plan: &NodePlan, replies: &[WorkerReply]) -> (step:
    NodeStep)
    requires
        plan.well_formed(),
    ensures
        node_run_of(step) == node_run(*plan, replies@),
        coherent_node_step(step),
{
    let mut evidence = CreatedWorkerDirectoryEvidence::new();
    match plan.control.fail_if_requested(0) {
        Ok(()) => {},
        Err(failure) => {
            return failed(failure, evidence);
        },
    }
    match plan.control.fail_after_native_create_if_requested(0) {
        Ok(()) => {},
        Err(failure) => {
            return failed(failure, evidence);
        },
    }
    let target = match worker_node_target(plan) {
        Ok(target) => target,
        Err(failure) => {
            return failed(failure, evidence);
        },
    };
    let parent = match prepare_worker_node_parent(plan, replies, target) {
        WorkerStep::Ask(action) => {
            return NodeStep::Ask(action);
        },
        WorkerStep::Fail(failure) => {
            return failed(failure, evidence);
        },
        WorkerStep::Next(parent) => parent,
    };
    let canonical = match plan.node {
        WorkerDirectoryNode::Support { ordinal: _ } => false,
        _ => true,
    };
    let placed = match place_worker_directory(
        plan.control,
        replies,
        parent.next,
        &mut evidence,
        parent.directory,
        target,
        canonical,
    ) {
        WorkerStep::Ask(action) => {
            return NodeStep::Ask(action);
        },
        WorkerStep::Fail(failure) => {
            return failed(failure, evidence);
        },
        WorkerStep::Next(placed) => placed,
    };
    match placed.record.disposition {
        WorkerDirectoryNodeDisposition::Created => {
            match plan.control.fail_if_requested(1) {
                Ok(()) => {},
                Err(failure) => {
                    return failed(failure, evidence);
                },
            }
        },
        WorkerDirectoryNodeDisposition::Existing => {},
    }
    match ask(replies, placed.next, WorkerAction::OpenPath { target }) {
        WorkerStep::Ask(action) => NodeStep::Ask(action),
        WorkerStep::Fail(failure) => failed(failure, evidence),
        WorkerStep::Next(identity) => {
            if !identity.same_as(&placed.record.identity) {
                return failed(
                    permission_denied("worker node path changed during creation"),
                    evidence,
                );
            }
            NodeStep::Done {
                failure: None,
                evidence: WorkerNodeMutationEvidence::Complete {
                    record: placed.record,
                    created: evidence,
                },
            }
        },
    }
}

} // verus!
