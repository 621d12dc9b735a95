//! The way to a directory of a layout, and what is made at its end, operation by
//! operation.

use crate::error::{ErrorKind, PlatformError};
use crate::layout::WorkerDirectoryNode;
use crate::layout_mutation;
use crate::layout_mutation::{
    place_worker_directory, prepare_worker_root_from_anchor, CreatedWorkerDirectoryEvidence,
    LayoutPlan, Placed, PreparedWorkerRoot,
};
use crate::node_mutation;
use crate::node_mutation::{
    perform_worker_directory_node_mutation, prepare_worker_node_parent, worker_node_target,
    NodeParent, NodePlan, NodeStep, WorkerNodeMutationEvidence,
};
use crate::procedure_laws::{done, failed, failed_with};
use crate::worker_ops;
use crate::worker_ops::{
    open_or_create_worker_directory_at, reverify_retained_created_worker_directory, OpenOrCreated,
    RetainedCreatedWorkerDirectory, WorkerAction, WorkerDirectoryIdentity,
    WorkerDirectoryNodeDisposition, WorkerDirectoryRef, WorkerMutationControl, WorkerReply,
    WorkerStep, WorkerTarget,
};
use vstd::prelude::*;

verus! {

// ---------------------------------------------------------------------------
// Ways
// ---------------------------------------------------------------------------

/// The directory that was reached after the first `k` operations of a way: the locked one
/// at its beginning, later the one that was opened last.
pub open spec fn reached(k: int) -> WorkerDirectoryRef {
    if k == 0 {
        WorkerDirectoryRef::Anchor
    } else {
        WorkerDirectoryRef::Opened { at: (k - 2) as usize }
    }
}

/// Operation number `k` of a way from component number `first` on: each component is
/// opened in the one before and then checked, that of operation number `exact` for a
/// worker's exact rules, every other for being safe even from new entries.
pub open spec fn way_operation(k: int, first: int, exact: int) -> WorkerAction {
    if k % 2 == 0 {
        WorkerAction::Open {
            parent: reached(k),
            target: WorkerTarget::Component { index: (first + k / 2) as usize },
        }
    } else if k == exact {
        WorkerAction::VerifyCanonical {
            directory: WorkerDirectoryRef::Opened { at: (k - 1) as usize },
        }
    } else {
        WorkerAction::VerifyAncestor {
            directory: WorkerDirectoryRef::Opened { at: (k - 1) as usize },
            allow_create: false,
        }
    }
}

/// Whether the operations from number `k` to before number `end` were all done.
pub open spec fn all_done(replies: Seq<WorkerReply>, k: int, end: int) -> bool {
    forall|i: int| k <= i < end ==> #[trigger] done(replies, i)
}

/// The number of the operation that is next, where number `k` is the first.
pub open spec fn upcoming(replies: Seq<WorkerReply>, k: int) -> int {
    if k < replies.len() {
        replies.len() as int
    } else {
        k
    }
}

/// Whether a step is that of a way of `total` operations of which number `k` is the next:
/// the one that is asked for, the first failure, or the end of the way.
pub open spec fn goes(
    replies: Seq<WorkerReply>,
    k: int,
    total: int,
    first: int,
    exact: int,
    step: WorkerStep<NodeParent>,
) -> bool {
    match step {
        WorkerStep::Ask(action) => {
            &&& upcoming(replies, k) < total
            &&& all_done(replies, k, replies.len() as int)
            &&& action == way_operation(upcoming(replies, k), first, exact)
        },
        WorkerStep::Fail(failure) => exists|i: int|
            k <= i < total && #[trigger] failed(replies, i, failure) && all_done(replies, k, i),
        WorkerStep::Next(parent) => {
            &&& all_done(replies, k, total)
            &&& parent.next == total
            &&& parent.directory == reached(total)
        },
    }
}

proof fn lemma_longer(
    replies: Seq<WorkerReply>,
    k: int,
    total: int,
    first: int,
    exact: int,
    step: WorkerStep<NodeParent>,
)
    requires
        goes(replies, k + 2, total, first, exact, step),
        done(replies, k) && done(replies, k + 1),
    ensures
        goes(replies, k, total, first, exact, step),
{
    assert forall|end: int| all_done(replies, k + 2, end) implies #[trigger] all_done(
        replies,
        k,
        end,
    ) by {
        assert forall|i: int| k <= i < end implies #[trigger] done(replies, i) by {}
    }
    assert(all_done(replies, k + 2, replies.len() as int) ==> all_done(
        replies,
        k,
        replies.len() as int,
    ));
    assert(all_done(replies, k + 2, total) ==> all_done(replies, k, total));
    if let WorkerStep::Fail(failure) = step {
        let i = choose|i: int|
            k + 2 <= i < total && #[trigger] failed(replies, i, failure) && all_done(
                replies,
                k + 2,
                i,
            );
        assert(all_done(replies, k, i));
        assert(failed(replies, i, failure));
    }
}

proof fn lemma_approached(
    plan: NodePlan,
    replies: Seq<WorkerReply>,
    index: nat,
    end: nat,
    exact: int,
)
    requires
        plan.first_creatable <= index <= end,
        2 * (index - plan.first_creatable) <= replies.len() <= usize::MAX,
        exact < 0 || exact >= 2 * (end - plan.first_creatable),
    ensures
        goes(
            replies,
            2 * (index - plan.first_creatable),
            2 * (end - plan.first_creatable),
            plan.first_creatable as int,
            exact,
            node_mutation::approached(
                plan,
                replies,
                (2 * (index - plan.first_creatable)) as nat,
                index,
                end,
                reached(2 * (index - plan.first_creatable)),
            ),
        ),
    decreases end - index,
{
    let f = plan.first_creatable as int;
    let k = 2 * (index - f);
    let total = 2 * (end - f);
    let step = node_mutation::approached(plan, replies, k as nat, index, end, reached(k));
    if index < end {
        assert(k % 2 == 0 && f + k / 2 == index);
        if k >= replies.len() {
        } else if replies[k].result is Err {
            assert(failed(replies, k, step->Fail_0));
        } else if k + 1 >= replies.len() {
            assert(done(replies, k));
            assert((k + 1) % 2 != 0);
        } else if replies[k + 1].result is Err {
            assert(done(replies, k));
            assert(failed(replies, k + 1, step->Fail_0));
        } else {
            lemma_approached(plan, replies, index + 1, end, exact);
            assert(done(replies, k) && done(replies, k + 1));
            lemma_longer(replies, k, total, f, exact, step);
        }
    }
}

/// The directory in which another is to be made is reached by opening and checking each
/// component on the way, in their order. Where it is the root, the root is opened last and
/// must have a worker's exact rules. The first failure on the way is the result.
pub proof fn parents_are_reached_step_by_step(
    plan: &NodePlan,
    replies: &[WorkerReply],
    target: WorkerTarget,
    step: WorkerStep<NodeParent>,
)
    requires
        call_ensures(prepare_worker_node_parent, (plan, replies, target), step),
        plan.first_creatable < plan.component_count,
        replies@.len() <= usize::MAX,
        target matches WorkerTarget::Component { index } ==> plan.first_creatable <= index,
    ensures
        match target {
            WorkerTarget::Component { index } => goes(
                replies@,
                0,
                2 * (index - plan.first_creatable),
                plan.first_creatable as int,
                -1,
                step,
            ),
            WorkerTarget::Child { .. } => goes(
                replies@,
                0,
                2 * (plan.component_count - plan.first_creatable),
                plan.first_creatable as int,
                2 * (plan.component_count - plan.first_creatable) - 1,
                step,
            ),
        },
{
    let all = replies@;
    let f = plan.first_creatable as int;
    match target {
        WorkerTarget::Component { index } => {
            lemma_approached(*plan, all, f as nat, index as nat, -1);
        },
        WorkerTarget::Child { .. } => {
            let end = (plan.component_count - 1) as nat;
            let m = 2 * (end - f);
            let total = m + 2;
            lemma_approached(*plan, all, f as nat, end, m + 1);
            let way = node_mutation::approached(
                *plan,
                all,
                0,
                f as nat,
                end,
                WorkerDirectoryRef::Anchor,
            );
            if let WorkerStep::Fail(failure) = way {
                let i = choose|i: int|
                    0 <= i < m && #[trigger] failed(all, i, failure) && all_done(all, 0, i);
                assert(failed(all, i, failure));
            }
            if way is Next {
                assert(m % 2 == 0 && f + m / 2 == end);
                assert((m + 1) % 2 != 0);
                if m < all.len() {
                    if all[m].result is Err {
                        assert(failed(all, m, step->Fail_0));
                    } else {
                        assert(done(all, m));
                        assert(all_done(all, 0, m + 1));
                        if m + 1 < all.len() {
                            if all[m + 1].result is Err {
                                assert(failed(all, m + 1, step->Fail_0));
                            } else {
                                assert(done(all, m + 1));
                                assert(all_done(all, 0, m + 2));
                            }
                        }
                    }
                } else {
                    assert(m == all.len() || m == 0) by {
                        if m > 0 {
                            assert(done(all, m - 1));
                        }
                    }
                }
            }
        },
    }
}

/// Whether a step is that of the way to a root, of which operation number `k` is the next.
/// A component that is missing ends the way, where the directory in which it is to be made
/// is safe, apart from new entries where those are allowed.
pub open spec fn leads(
    replies: Seq<WorkerReply>,
    k: int,
    total: int,
    first: int,
    allowed: bool,
    step: WorkerStep<PreparedWorkerRoot>,
) -> bool {
    match step {
        WorkerStep::Ask(action) => {
            let next = upcoming(replies, k);
            ||| next < total && all_done(replies, k, replies.len() as int) && action
                == way_operation(next, first, total - 1)
            ||| next > k && next <= total && next % 2 == 1 && all_done(replies, k, next - 1)
                && failed_with(replies, next - 1, ErrorKind::NotFound) && action == (
            WorkerAction::VerifyAncestor { directory: reached(next - 1), allow_create: allowed })
        },
        WorkerStep::Fail(failure) => exists|i: int|
            k <= i < total && #[trigger] failed(replies, i, failure) && (all_done(replies, k, i)
                && !(i % 2 == 0 && failure.spec_kind() == ErrorKind::NotFound) || i > k && i % 2
                == 1 && all_done(replies, k, i - 1) && failed_with(
                replies,
                i - 1,
                ErrorKind::NotFound,
            )),
        WorkerStep::Next(prepared) => {
            let end = 2 * (prepared.next_component - first);
            &&& k <= end <= total && all_done(replies, k, end)
            &&& prepared.directory == reached(end)
            &&& if end == total {
                prepared.next == total
            } else {
                failed_with(replies, end, ErrorKind::NotFound) && done(replies, end + 1)
                    && prepared.next == end + 2
            }
        },
    }
}

proof fn lemma_leads_longer(
    replies: Seq<WorkerReply>,
    k: int,
    total: int,
    first: int,
    allowed: bool,
    step: WorkerStep<PreparedWorkerRoot>,
)
    requires
        leads(replies, k + 2, total, first, allowed, step),
        done(replies, k) && done(replies, k + 1),
    ensures
        leads(replies, k, total, first, allowed, step),
{
    assert forall|end: int| all_done(replies, k + 2, end) implies #[trigger] all_done(
        replies,
        k,
        end,
    ) by {
        assert forall|i: int| k <= i < end implies #[trigger] done(replies, i) by {}
    }
    let n = replies.len() as int;
    assert(all_done(replies, k + 2, n) ==> all_done(replies, k, n));
    assert(all_done(replies, k + 2, n - 1) ==> all_done(replies, k, n - 1));
    if let WorkerStep::Next(prepared) = step {
        let end = 2 * (prepared.next_component - first);
        assert(all_done(replies, k, end));
    }
    if let WorkerStep::Fail(failure) = step {
        let i = choose|i: int|
            k + 2 <= i < total && #[trigger] failed(replies, i, failure) && (all_done(
                replies,
                k + 2,
                i,
            ) && !(i % 2 == 0 && failure.spec_kind() == ErrorKind::NotFound) || i > k + 2 && i % 2
                == 1 && all_done(replies, k + 2, i - 1) && failed_with(
                replies,
                i - 1,
                ErrorKind::NotFound,
            ));
        assert(all_done(replies, k + 2, i) ==> all_done(replies, k, i));
        assert(all_done(replies, k + 2, i - 1) ==> all_done(replies, k, i - 1));
        assert(failed(replies, i, failure));
    }
}

proof fn lemma_followed(plan: LayoutPlan, replies: Seq<WorkerReply>, index: nat)
    requires
        plan.first_creatable <= index <= plan.component_count,
        replies.len() <= usize::MAX,
        2 * (index - plan.first_creatable) <= replies.len(),
    ensures
        leads(
            replies,
            2 * (index - plan.first_creatable),
            2 * (plan.component_count - plan.first_creatable),
            plan.first_creatable as int,
            plan.allow_untrusted_parent_create,
            layout_mutation::followed(
                plan,
                replies,
                (2 * (index - plan.first_creatable)) as nat,
                index,
                reached(2 * (index - plan.first_creatable)),
            ),
        ),
    decreases plan.component_count - index,
{
    let f = plan.first_creatable as int;
    let k = 2 * (index - f);
    let total = 2 * (plan.component_count - f);
    let allowed = plan.allow_untrusted_parent_create;
    let step = layout_mutation::followed(plan, replies, k as nat, index, reached(k));
    if index < plan.component_count {
        assert(k % 2 == 0 && f + k / 2 == index);
        assert((k + 1) % 2 == 1);
        if k >= replies.len() {
        } else if let Err(failure) = replies[k].result {
            assert(failed(replies, k, failure));
            if worker_ops::is_missing(failure) {
                assert(failed_with(replies, k, ErrorKind::NotFound));
                if k + 1 < replies.len() && replies[k + 1].result is Err {
                    assert(failed(replies, k + 1, step->Fail_0));
                }
            }
        } else if k + 1 >= replies.len() {
            assert(done(replies, k));
        } else if replies[k + 1].result is Err {
            assert(done(replies, k));
            assert(failed(replies, k + 1, step->Fail_0));
        } else {
            lemma_followed(plan, replies, index + 1);
            assert(done(replies, k) && done(replies, k + 1));
            lemma_leads_longer(replies, k, total, f, allowed, step);
        }
    }
}

/// The path to a root is followed as far as it is there: each component is opened in the
/// one before and checked, the root for a worker's exact rules. Where one is missing, the
/// directory in which it is to be made is checked instead, and the way ends there.
pub proof fn roots_are_reached_as_far_as_they_are_there(
    plan: &LayoutPlan,
    replies: &[WorkerReply],
    step: WorkerStep<PreparedWorkerRoot>,
)
    requires
        call_ensures(prepare_worker_root_from_anchor, (plan, replies), step),
        plan.first_creatable < plan.component_count,
        replies@.len() <= usize::MAX,
    ensures
        leads(
            replies@,
            0,
            2 * (plan.component_count - plan.first_creatable),
            plan.first_creatable as int,
            plan.allow_untrusted_parent_create,
            step,
        ),
{
    lemma_followed(*plan, replies@, plan.first_creatable as nat);
}

// ---------------------------------------------------------------------------
// What is made
// ---------------------------------------------------------------------------

/// A directory above the root has its place among the components of the root's path, the
/// root has the last, and the five have theirs in the root, in their order. Only a
/// directory above the root can have none.
pub proof fn directories_have_their_place(
    plan: &NodePlan,
    result: Result<WorkerTarget, PlatformError>,
)
    requires
        call_ensures(worker_node_target, (plan,), result),
        plan.first_creatable < plan.component_count,
    ensures
        match plan.node {
            WorkerDirectoryNode::Support { ordinal } => {
                &&& result is Ok <==> plan.first_creatable + ordinal < plan.component_count - 1
                &&& result matches Ok(target) ==> (target matches WorkerTarget::Component { index }
                    && index == plan.first_creatable + ordinal)
            },
            WorkerDirectoryNode::Root => result matches Ok(WorkerTarget::Component { index })
                && index == plan.component_count - 1,
            WorkerDirectoryNode::Repos => result matches Ok(WorkerTarget::Child { ordinal })
                && ordinal == 0,
            WorkerDirectoryNode::Jobs => result matches Ok(WorkerTarget::Child { ordinal })
                && ordinal == 1,
            WorkerDirectoryNode::Cache => result matches Ok(WorkerTarget::Child { ordinal })
                && ordinal == 2,
            WorkerDirectoryNode::Artifacts => result matches Ok(WorkerTarget::Child { ordinal })
                && ordinal == 3,
            WorkerDirectoryNode::Logs => result matches Ok(WorkerTarget::Child { ordinal })
                && ordinal == 4,
        },
{
}

/// A directory is placed as it was opened or made. One that was there is said to be so,
/// and nothing is held of it. One that was made is held at once, and is said to be made
/// once another look at it gave its identity; nothing that was held before is lost.
pub proof fn directories_are_placed_as_they_were_found(
    control: WorkerMutationControl,
    replies: &[WorkerReply],
    at: usize,
    evidence: &mut CreatedWorkerDirectoryEvidence,
    parent: WorkerDirectoryRef,
    target: WorkerTarget,
    own: bool,
    opened: WorkerStep<OpenOrCreated>,
    made: RetainedCreatedWorkerDirectory,
    look: WorkerStep<WorkerDirectoryIdentity>,
    step: WorkerStep<Placed>,
)
    requires
        call_ensures(
            place_worker_directory,
            (control, replies, at, evidence, parent, target, own),
            step,
        ),
        call_ensures(
            open_or_create_worker_directory_at,
            (replies, at, parent, target, own),
            opened,
        ),
        opened matches WorkerStep::Next(found) ==> {
            &&& made.target == target && made.parent == parent
            &&& made.directory == found.directory && made.identity is None
            &&& call_ensures(
                reverify_retained_created_worker_directory,
                (replies, found.next, &made),
                look,
            )
        },
    ensures
        opened matches WorkerStep::Ask(action) ==> step == WorkerStep::<Placed>::Ask(action)
            && final(evidence).created@ == old(evidence).created@,
        opened matches WorkerStep::Fail(failure) ==> step == WorkerStep::<Placed>::Fail(failure)
            && final(evidence).created@ == old(evidence).created@,
        opened matches WorkerStep::Next(found) ==> (found.existing matches Some(identity) ==> {
            &&& final(evidence).created@ == old(evidence).created@
            &&& step matches WorkerStep::Next(placed) && placed.record.target == target
                && placed.record.directory == found.directory && placed.record.identity == identity
                && placed.record.disposition == WorkerDirectoryNodeDisposition::Existing
                && placed.next == found.next
        }),
        opened matches WorkerStep::Next(found) ==> (found.existing is None ==> {
            let before = old(evidence).created@;
            let after = final(evidence).created@;
            let purpose = control.fail_after_native_created == Some((before.len() + 1) as usize)
                && before.len() + 1 <= usize::MAX;
            &&& after.len() == before.len() + 1
            &&& after.drop_last() == before
            &&& after.last().target == target && after.last().parent == parent
            &&& after.last().directory == found.directory
            &&& step is Next <==> !purpose && look is Next
            &&& step matches WorkerStep::Next(placed) ==> {
                &&& after.last().identity == Some(look->Next_0)
                &&& placed.record.target == target && placed.record.directory == found.directory
                &&& placed.record.identity == look->Next_0
                &&& placed.record.disposition == WorkerDirectoryNodeDisposition::Created
            }
            &&& !(step is Next) ==> after.last().identity is None
            &&& step matches WorkerStep::Ask(action) ==> look == WorkerStep::<
                WorkerDirectoryIdentity,
            >::Ask(action)
            &&& step matches WorkerStep::Fail(failure) ==> purpose || look == WorkerStep::<
                WorkerDirectoryIdentity,
            >::Fail(failure)
        }),
{
    if let WorkerStep::Next(found) = opened {
        if found.existing is None {
            assert(final(evidence).created@.drop_last() =~= old(evidence).created@);
        }
    }
}

/// What was made by a run that is over.
pub open spec fn held_after(evidence: WorkerNodeMutationEvidence) -> Seq<
    RetainedCreatedWorkerDirectory,
> {
    match evidence {
        WorkerNodeMutationEvidence::Complete { created, .. } => created.created@,
        WorkerNodeMutationEvidence::Partial { created } => created.created@,
    }
}

/// One directory is made by finding its place, reaching the directory in which it stands,
/// and placing it there, one above the root for being safe and every other for a worker's
/// exact rules. It counts only once its path leads to it; whatever fails, what was made is
/// held.
pub proof fn one_directory_is_made_at_its_place(
    plan: &NodePlan,
    replies: &[WorkerReply],
    target: Result<WorkerTarget, PlatformError>,
    parent: WorkerStep<NodeParent>,
    evidence: &mut CreatedWorkerDirectoryEvidence,
    placed: WorkerStep<Placed>,
    step: NodeStep,
)
    requires
        plan.first_creatable < plan.component_count,
        plan.control.fail_after_created is None && plan.control.fail_after_native_created is None,
        call_ensures(perform_worker_directory_node_mutation, (plan, replies), step),
        call_ensures(worker_node_target, (plan,), target),
        target is Ok ==> call_ensures(
            prepare_worker_node_parent,
            (plan, replies, target->Ok_0),
            parent,
        ),
        old(evidence).created@.len() == 0,
        target is Ok && parent is Next ==> call_ensures(
            place_worker_directory,
            (
                plan.control,
                replies,
                parent->Next_0.next,
                evidence,
                parent->Next_0.directory,
                target->Ok_0,
                !(plan.node is Support),
            ),
            placed,
        ),
    ensures
        target matches Err(failure) ==> (step matches NodeStep::Done {
            failure: Some(why),
            evidence: left,
        } && why == failure && held_after(left).len() == 0),
        target is Ok ==> (parent matches WorkerStep::Ask(action) ==> step == NodeStep::Ask(action)),
        target is Ok ==> (parent matches WorkerStep::Fail(failure) ==> (
        step matches NodeStep::Done { failure: Some(why), evidence: left } && why == failure
            && held_after(left).len() == 0)),
        target is Ok && parent is Next ==> (placed matches WorkerStep::Ask(action) ==> step
            == NodeStep::Ask(action)),
        target is Ok && parent is Next ==> (placed matches WorkerStep::Fail(failure) ==> (
        step matches NodeStep::Done { failure: Some(why), evidence: left } && why == failure
            && held_after(left) == final(evidence).created@)),
        target is Ok && parent is Next ==> (placed matches WorkerStep::Next(one) ==> {
            let at = one.next as int;
            &&& step == NodeStep::Ask(WorkerAction::OpenPath { target: target->Ok_0 })
                <==> replies@.len() <= at
            &&& replies@.len() > at ==> (step matches NodeStep::Done {
                failure,
                evidence: left,
            } && held_after(left) == final(evidence).created@ && (failure is None <==> done(
                replies@,
                at,
            ) && replies@[at].identity == one.record.identity) && (failure is None ==> (
            left matches WorkerNodeMutationEvidence::Complete { record, .. } && record
                == one.record)))
        }),
{
    let none = Seq::<RetainedCreatedWorkerDirectory>::empty();
    assert(old(evidence).created@ =~= none);
}

} // verus!
