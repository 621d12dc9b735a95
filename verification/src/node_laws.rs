//! What holds of making one directory, whatever the replies: nothing else is
//! made, and what was made is accounted for.

use crate::layout;
use crate::layout::LayoutModel;
use crate::layout_laws;
use crate::node_mutation;
use crate::node_mutation::{NodePlan, NodeRun};
use crate::worker_ops::{
    RetainedCreatedWorkerDirectory, WorkerAction, WorkerDirectoryNodeDisposition,
    WorkerDirectoryRef, WorkerReply, WorkerStep, WorkerTarget,
};
use vstd::prelude::*;

verus! {

/// What was made by the end of a run.
pub open spec fn node_made_by(run: NodeRun) -> Seq<RetainedCreatedWorkerDirectory> {
    match run {
        NodeRun::Failed { failure, created } => created,
        NodeRun::Complete { record, created } => created,
        NodeRun::Ask { action } => seq![],
    }
}

/// The place that a run asks to make next.
pub open spec fn node_asks_to_make(run: NodeRun, target: WorkerTarget) -> bool {
    run matches NodeRun::Ask { action } && (action matches WorkerAction::Create {
        target: asked,
        ..
    } && asked == target)
}

proof fn lemma_approached(
    plan: NodePlan,
    p: Seq<WorkerReply>,
    r: Seq<WorkerReply>,
    at: nat,
    index: nat,
    target_index: nat,
    directory: WorkerDirectoryRef,
)
    requires
        layout_laws::continues(p, r),
        at <= p.len(),
    ensures
        ({
            let before = node_mutation::approached(plan, p, at, index, target_index, directory);
            let after = node_mutation::approached(plan, r, at, index, target_index, directory);
            &&& !(before is Ask) ==> after == before
            &&& !layout_laws::makes(before)
            &&& before matches WorkerStep::Next(parent) ==> parent.next <= p.len()
        }),
    decreases target_index - index,
{
    if index < target_index && at + 2 <= p.len() {
        let opened = WorkerDirectoryRef::Opened { at: at as usize };
        lemma_approached(plan, p, r, at + 2, index + 1, target_index, opened);
    }
}

proof fn lemma_parent(plan: NodePlan, p: Seq<WorkerReply>, r: Seq<WorkerReply>, target: WorkerTarget)
    requires
        layout_laws::continues(p, r),
    ensures
        ({
            let before = node_mutation::node_parent(plan, p, target);
            let after = node_mutation::node_parent(plan, r, target);
            &&& !(before is Ask) ==> after == before
            &&& !layout_laws::makes(before)
            &&& before matches WorkerStep::Next(parent) ==> parent.next <= p.len()
        }),
{
    lemma_approached(
        plan,
        p,
        r,
        0,
        plan.first_creatable as nat,
        node_mutation::way_end(plan, target),
        WorkerDirectoryRef::Anchor,
    );
}

proof fn lemma_node(plan: NodePlan, p: Seq<WorkerReply>, r: Seq<WorkerReply>, target: WorkerTarget)
    requires
        layout_laws::continues(p, r),
    ensures
        ({
            let before = node_mutation::node_run(plan, p);
            let after = node_mutation::node_run(plan, r);
            node_asks_to_make(before, target) ==> node_mutation::node_target(plan) == Ok::<
                WorkerTarget,
                crate::error::PlatformError,
            >(target) && (p.len() < r.len() && r[p.len() as int].result is Ok && !(after is Ask)
                ==> layout_laws::accounts_for(node_made_by(after), p.len(), target))
        }),
{
    let nothing = Seq::<RetainedCreatedWorkerDirectory>::empty();
    if let Ok(place) = node_mutation::node_target(plan) {
        lemma_parent(plan, p, r, place);
        if let WorkerStep::Next(parent) = node_mutation::node_parent(plan, p, place) {
            layout_laws::lemma_placed(
                plan.control,
                p,
                r,
                parent.next as nat,
                nothing,
                parent.directory,
                place,
                node_mutation::is_canonical(plan),
            );
        }
    }
}

/// Only the directory that was planned is made: no other place is asked for, and
/// at most one directory is held, in that place.
pub proof fn only_the_planned_directory_is_made(
    plan: NodePlan,
    replies: Seq<WorkerReply>,
    target: WorkerTarget,
)
    requires
        replies.len() <= usize::MAX,
    ensures
        ({
            let run = node_mutation::node_run(plan, replies);
            let place = node_mutation::node_target(plan);
            &&& node_asks_to_make(run, target) ==> place is Ok && place->Ok_0 == target
            &&& node_made_by(run).len() <= 1
            &&& node_made_by(run).len() == 1 ==> place is Ok && node_made_by(run)[0].target
                == place->Ok_0
        }),
{
    lemma_node(plan, replies, replies, target);
}

/// Whatever was made is held: where making the directory succeeded, every run
/// that goes on from there and ends has it among what was made.
pub proof fn a_directory_that_was_made_is_accounted_for(
    plan: NodePlan,
    earlier: Seq<WorkerReply>,
    later: Seq<WorkerReply>,
    target: WorkerTarget,
)
    requires
        layout_laws::continues(earlier, later),
        node_asks_to_make(node_mutation::node_run(plan, earlier), target),
        earlier.len() < later.len(),
        later[earlier.len() as int].result is Ok,
        !(node_mutation::node_run(plan, later) is Ask),
    ensures
        layout_laws::accounts_for(
            node_made_by(node_mutation::node_run(plan, later)),
            earlier.len(),
            target,
        ),
{
    lemma_node(plan, earlier, later, target);
}

/// A run that succeeds and made the directory holds exactly that directory, with
/// its identity; one that found it holds nothing.
pub proof fn complete_runs_hold_exactly_what_they_made(plan: NodePlan, replies: Seq<WorkerReply>)
    ensures
        node_mutation::node_run(plan, replies) matches NodeRun::Complete { record, created } ==> {
            &&& node_mutation::node_target(plan) is Ok
            &&& record.target == node_mutation::node_target(plan)->Ok_0
            &&& if record.disposition == WorkerDirectoryNodeDisposition::Created {
                created.len() == 1 && created[0].target == record.target && created[0].directory
                    == record.directory && created[0].identity == Some(record.identity)
            } else {
                created.len() == 0
            }
        },
{
}

/// The plan for a directory of a layout.
pub open spec fn plans_for(plan: NodePlan, layout: LayoutModel) -> bool {
    &&& plan.well_formed()
    &&& plan.component_count == layout.root.components.len()
    &&& match layout.policy {
        layout::PolicyModel::ExistingParent { .. } => plan.first_creatable + 1
            == plan.component_count,
        layout::PolicyModel::CreateMissingFrom { anchor } => layout::lies_below(
            layout.root,
            anchor,
        ) && plan.first_creatable == anchor.components.len(),
    }
}

/// A directory is made where the layout says that it stands, and one that is not
/// of the layout is not made at all.
pub proof fn directories_are_made_where_they_belong(plan: NodePlan, layout: LayoutModel)
    requires
        plans_for(plan, layout),
    ensures
        node_mutation::node_target(plan) is Ok <==> layout::node_path(layout, plan.node) is Some,
        node_mutation::node_target(plan) matches Ok(target) ==> layout::node_path(
            layout,
            plan.node,
        ) == Some(node_mutation::target_path(layout.root, target)),
{
    if let Ok(target) = node_mutation::node_target(plan) {
        if let Some(path) = layout::node_path(layout, plan.node) {
            assert(node_mutation::target_path(layout.root, target).components =~= path.components);
        }
    }
}

} // verus!
