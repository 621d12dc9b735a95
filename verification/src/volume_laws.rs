//! What making a layout comes to on a volume that nobody else changes: exactly
//! what is missing is made, and a second run finds it and makes nothing.

use crate::error::PlatformError;
use crate::evidence;
use crate::evidence::{WorkerDirectoryCreation, WorkerDirectoryCreationError};
use crate::layout;
use crate::layout::LayoutModel;
use crate::layout_laws;
use crate::layout_mutation;
use crate::layout_mutation::{
    LayoutPlan, LayoutRun, LayoutStep, NodeRecord, ReachedRoot, WorkerMutationEvidence, CHILD_COUNT,
};
use crate::privilege::{PrivilegeError, WindowsPrivilegedWorkerMutation};
use crate::worker_create;
use crate::worker_create::{CreationChecks, MutationRun};
use crate::worker_ops;
use crate::worker_ops::{
    ObservationModel, RetainedCreatedWorkerDirectory, WorkerAction, WorkerDirectoryIdentity,
    WorkerDirectoryNodeDisposition, WorkerDirectoryRef, WorkerReply, WorkerStep, WorkerTarget,
};
use crate::worker_outcome;
use crate::worker_outcome::WorkerDirectoryLease;
use vstd::prelude::*;

verus! {

// ---------------------------------------------------------------------------
// Volumes
// ---------------------------------------------------------------------------

/// The directories of a volume: which places are taken before a run, and which
/// directory each place leads to once it is taken.
pub ghost struct Volume {
    pub present: spec_fn(WorkerTarget) -> bool,
    pub identity: spec_fn(WorkerTarget) -> WorkerDirectoryIdentity,
}

/// Whether a volume would give this reply. What is opened is there, and what is
/// missing is not; nobody else makes a directory that is asked for; and a place
/// leads to its directory.
pub open spec fn fits(volume: Volume, action: WorkerAction, reply: WorkerReply) -> bool {
    match action {
        WorkerAction::Open { target, .. } => match reply.result {
            Ok(()) => (volume.present)(target),
            Err(failure) => worker_ops::is_missing(failure) ==> !(volume.present)(target),
        },
        WorkerAction::Create { .. } => reply.result matches Err(failure) ==> !worker_ops::is_taken(
            failure,
        ),
        WorkerAction::Reopen { target, .. } => reply.result is Ok ==> reply.identity == (
        volume.identity)(target),
        WorkerAction::OpenPath { target } => reply.result is Ok ==> reply.identity == (
        volume.identity)(target),
        _ => true,
    }
}

/// Whether every reply of a run is one that the volume would give.
pub open spec fn answered_by(plan: LayoutPlan, replies: Seq<WorkerReply>, volume: Volume) -> bool {
    forall|at: int|
        0 <= at < replies.len() ==> (layout_mutation::layout_run(plan, #[trigger] replies.take(at))
            matches LayoutRun::Ask { action } ==> fits(volume, action, replies[at]))
}

/// On the way to the root nothing stands in a directory that is missing.
pub open spec fn sound(plan: LayoutPlan, volume: Volume) -> bool {
    forall|outer: usize, inner: usize|
        #![trigger (volume.present)(WorkerTarget::Component { index: outer }), (volume.present)(WorkerTarget::Component { index: inner })]
        plan.first_creatable <= outer < inner < plan.component_count && (volume.present)(
            WorkerTarget::Component { index: inner },
        ) ==> (volume.present)(WorkerTarget::Component { index: outer })
}

/// A run on a volume.
pub open spec fn runs_on(plan: LayoutPlan, replies: Seq<WorkerReply>, volume: Volume) -> bool {
    &&& plan.well_formed()
    &&& replies.len() <= usize::MAX
    &&& sound(plan, volume)
    &&& answered_by(plan, replies, volume)
}

/// How a directory comes to be there.
pub open spec fn disposition_on(
    volume: Volume,
    target: WorkerTarget,
) -> WorkerDirectoryNodeDisposition {
    if (volume.present)(target) {
        WorkerDirectoryNodeDisposition::Existing
    } else {
        WorkerDirectoryNodeDisposition::Created
    }
}

/// Whether a directory is the one in its place, made exactly if it was missing.
pub open spec fn stands_on(volume: Volume, record: NodeRecord, target: WorkerTarget) -> bool {
    &&& record.target == target
    &&& record.disposition == disposition_on(volume, target)
    &&& record.identity == (volume.identity)(target)
}

/// Whether a place is among what was made.
pub open spec fn was_made(
    created: Seq<RetainedCreatedWorkerDirectory>,
    target: WorkerTarget,
) -> bool {
    exists|i: int| 0 <= i < created.len() && (#[trigger] created[i]).target == target
}

/// The volume after a run that made `created`.
pub open spec fn left_by(volume: Volume, created: Seq<RetainedCreatedWorkerDirectory>) -> Volume {
    Volume {
        present: |target: WorkerTarget| (volume.present)(target) || was_made(created, target),
        identity: volume.identity,
    }
}

// ---------------------------------------------------------------------------
// Operations
// ---------------------------------------------------------------------------

spec fn starts(p: Seq<WorkerReply>, r: Seq<WorkerReply>, at: nat) -> bool {
    &&& at <= p.len()
    &&& layout_laws::continues(p, r)
}

proof fn lemma_fits(
    plan: LayoutPlan,
    r: Seq<WorkerReply>,
    volume: Volume,
    at: nat,
    action: WorkerAction,
)
    requires
        runs_on(plan, r, volume),
        at < r.len(),
        layout_mutation::layout_run(plan, r.take(at as int)) == (LayoutRun::Ask { action }),
    ensures
        fits(volume, action, r[at as int]),
{
    let p = r.take(at as int);
}

proof fn lemma_take(r: Seq<WorkerReply>, at: nat)
    requires
        at <= r.len() <= usize::MAX,
    ensures
        starts(r.take(at as int), r, at),
        r.take(at as int).len() == at,
{
}

/// The way to the root is followed as far as it is there.
proof fn lemma_followed(
    plan: LayoutPlan,
    r: Seq<WorkerReply>,
    volume: Volume,
    at: nat,
    index: nat,
    directory: WorkerDirectoryRef,
)
    requires
        runs_on(plan, r, volume),
        at <= r.len(),
        plan.first_creatable <= index <= plan.component_count,
        forall|p: Seq<WorkerReply>| #[trigger]
            starts(p, r, at) ==> (layout_mutation::followed(plan, p, at, index, directory) matches
                WorkerStep::Ask(action) ==> layout_mutation::layout_run(plan, p) == (
            LayoutRun::Ask { action })),
    ensures
        !layout_laws::makes(layout_mutation::followed(plan, r, at, index, directory)),
        layout_mutation::followed(plan, r, at, index, directory) matches WorkerStep::Next(
            prepared,
        ) ==> {
            &&& at <= prepared.next <= r.len()
            &&& index <= prepared.next_component <= plan.component_count
            &&& prepared.next_component < plan.component_count ==> !(volume.present)(
                WorkerTarget::Component { index: prepared.next_component },
            )
            &&& forall|j: usize|
                index <= j < prepared.next_component ==> #[trigger] (volume.present)(
                    WorkerTarget::Component { index: j },
                )
            &&& forall|p: Seq<WorkerReply>| #[trigger]
                starts(p, r, prepared.next as nat) ==> layout_mutation::followed(
                    plan,
                    p,
                    at,
                    index,
                    directory,
                ) == WorkerStep::Next(prepared)
        },
    decreases plan.component_count - index,
{
    if index < plan.component_count && at < r.len() {
        let i = at as int;
        let target = WorkerTarget::Component { index: index as usize };
        let open = WorkerAction::Open { parent: directory, target };
        lemma_take(r, at);
        assert(starts(r.take(i), r, at));
        lemma_fits(plan, r, volume, at, open);
        let opened = WorkerDirectoryRef::Opened { at: at as usize };
        if r[i].result is Ok && at + 1 < r.len() && r[i + 1].result is Ok {
            assert forall|p: Seq<WorkerReply>| #[trigger] starts(p, r, at + 2) implies (
            layout_mutation::followed(plan, p, at + 2, index + 1, opened) matches WorkerStep::Ask(
                action,
            ) ==> layout_mutation::layout_run(plan, p) == (LayoutRun::Ask { action })) by {
                assert(starts(p, r, at));
                assert(p[i] == r[i] && p[i + 1] == r[i + 1]);
            }
            lemma_followed(plan, r, volume, at + 2, index + 1, opened);
            if let WorkerStep::Next(prepared) = layout_mutation::followed(
                plan,
                r,
                at,
                index,
                directory,
            ) {
                assert forall|p: Seq<WorkerReply>| #[trigger]
                    starts(p, r, prepared.next as nat) implies layout_mutation::followed(
                    plan,
                    p,
                    at,
                    index,
                    directory,
                ) == WorkerStep::Next(prepared) by {
                    assert(p[i] == r[i] && p[i + 1] == r[i + 1]);
                }
            }
        } else {
            assert forall|p: Seq<WorkerReply>| #[trigger] starts(p, r, at + 2) implies p[i]
                == r[i] && p[i + 1] == r[i + 1] by {}
        }
    }
}

/// A directory is made exactly if nothing is in its place.
proof fn lemma_placed(
    plan: LayoutPlan,
    r: Seq<WorkerReply>,
    volume: Volume,
    at: nat,
    created: Seq<RetainedCreatedWorkerDirectory>,
    parent: WorkerDirectoryRef,
    target: WorkerTarget,
    canonical: bool,
)
    requires
        runs_on(plan, r, volume),
        at <= r.len(),
        forall|p: Seq<WorkerReply>| #[trigger]
            starts(p, r, at) ==> (layout_mutation::placed(
                plan.control,
                p,
                at,
                created,
                parent,
                target,
                canonical,
            ).0 matches WorkerStep::Ask(action) ==> layout_mutation::layout_run(plan, p) == (
            LayoutRun::Ask { action })),
    ensures
        ({
            let (step, kept) = layout_mutation::placed(
                plan.control,
                r,
                at,
                created,
                parent,
                target,
                canonical,
            );
            &&& layout_laws::makes(step) ==> layout_laws::made(step) == target && !(volume.present)(
                target,
            )
            &&& step matches WorkerStep::Next(placed) ==> {
                &&& at <= placed.next <= r.len()
                &&& placed.record.target == target
                &&& placed.record.disposition == disposition_on(volume, target)
                &&& (volume.present)(target) ==> kept == created
                &&& !(volume.present)(target) ==> kept.len() == created.len() + 1
                    && kept.drop_last() == created && kept.last().target == target
                &&& forall|p: Seq<WorkerReply>| #[trigger]
                    starts(p, r, placed.next as nat) ==> layout_mutation::placed(
                        plan.control,
                        p,
                        at,
                        created,
                        parent,
                        target,
                        canonical,
                    ) == (step, kept)
            }
        }),
{
    let i = at as int;
    let (step, kept) = layout_mutation::placed(
        plan.control,
        r,
        at,
        created,
        parent,
        target,
        canonical,
    );
    if at < r.len() {
        lemma_take(r, at);
        assert(starts(r.take(i), r, at));
        lemma_fits(plan, r, volume, at, WorkerAction::Open { parent, target });
        if r[i].result is Err && worker_ops::is_missing(r[i].result->Err_0) && at + 1 < r.len() {
            lemma_take(r, at + 1);
            assert(starts(r.take(i + 1), r, at));
            assert(r.take(i + 1)[i] == r[i]);
            lemma_fits(plan, r, volume, at + 1, WorkerAction::Create { parent, target });
        }
        if let WorkerStep::Next(placed) = step {
            if !(volume.present)(target) {
                assert(kept.drop_last() =~= created);
            }
            assert forall|p: Seq<WorkerReply>| #[trigger]
                starts(p, r, placed.next as nat) implies layout_mutation::placed(
                plan.control,
                p,
                at,
                created,
                parent,
                target,
                canonical,
            ) == (step, kept) by {
                assert forall|k: int| 0 <= k < placed.next implies #[trigger] p[k] == r[k] by {}
            }
        }
    }
}

/// What is missing on the way to the root is made, and nothing else.
proof fn lemma_grown(
    plan: LayoutPlan,
    r: Seq<WorkerReply>,
    volume: Volume,
    at: nat,
    index: nat,
    directory: WorkerDirectoryRef,
    disposition: WorkerDirectoryNodeDisposition,
    created: Seq<RetainedCreatedWorkerDirectory>,
)
    requires
        runs_on(plan, r, volume),
        at <= r.len(),
        plan.first_creatable <= index <= plan.component_count,
        forall|j: usize|
            index <= j < plan.component_count ==> !#[trigger] (volume.present)(
                WorkerTarget::Component { index: j },
            ),
        forall|p: Seq<WorkerReply>| #[trigger]
            starts(p, r, at) ==> (layout_mutation::grown(
                plan,
                p,
                at,
                index,
                directory,
                disposition,
                created,
            ).0 matches WorkerStep::Ask(action) ==> layout_mutation::layout_run(plan, p) == (
            LayoutRun::Ask { action })),
    ensures
        ({
            let (step, kept) = layout_mutation::grown(
                plan,
                r,
                at,
                index,
                directory,
                disposition,
                created,
            );
            &&& layout_laws::makes(step) ==> !(volume.present)(layout_laws::made(step))
            &&& step matches WorkerStep::Next(root) ==> {
                &&& at <= root.next <= r.len()
                &&& root.disposition == if index < plan.component_count {
                    WorkerDirectoryNodeDisposition::Created
                } else {
                    disposition
                }
                &&& forall|target: WorkerTarget| #[trigger]
                    was_made(kept, target) <==> was_made(created, target) || (target matches
                        WorkerTarget::Component { index: j } && index <= j < plan.component_count)
                &&& forall|p: Seq<WorkerReply>| #[trigger]
                    starts(p, r, root.next as nat) ==> layout_mutation::grown(
                        plan,
                        p,
                        at,
                        index,
                        directory,
                        disposition,
                        created,
                    ) == (step, kept)
            }
        }),
    decreases plan.component_count - index,
{
    if index < plan.component_count {
        let is_root = index + 1 == plan.component_count;
        let target = WorkerTarget::Component { index: index as usize };
        assert(!(volume.present)(target));
        lemma_placed(plan, r, volume, at, created, directory, target, is_root);
        let (step, kept) = layout_mutation::placed(
            plan.control,
            r,
            at,
            created,
            directory,
            target,
            is_root,
        );
        if let WorkerStep::Next(placed) = step {
            let next = placed.next as nat;
            lemma_made(created, kept, target);
            if !(is_root && worker_ops::canonical_injection(plan.control, 1) is Some) {
                assert forall|p: Seq<WorkerReply>| #[trigger] starts(p, r, next) implies (
                layout_mutation::grown(
                    plan,
                    p,
                    next,
                    index + 1,
                    placed.record.directory,
                    placed.record.disposition,
                    kept,
                ).0 matches WorkerStep::Ask(action) ==> layout_mutation::layout_run(plan, p) == (
                LayoutRun::Ask { action })) by {
                    assert(starts(p, r, at));
                }
                lemma_grown(
                    plan,
                    r,
                    volume,
                    next,
                    index + 1,
                    placed.record.directory,
                    placed.record.disposition,
                    kept,
                );
                let (end, all) = layout_mutation::grown(
                    plan,
                    r,
                    at,
                    index,
                    directory,
                    disposition,
                    created,
                );
                if let WorkerStep::Next(root) = end {
                    assert forall|p: Seq<WorkerReply>| #[trigger]
                        starts(p, r, root.next as nat) implies layout_mutation::grown(
                        plan,
                        p,
                        at,
                        index,
                        directory,
                        disposition,
                        created,
                    ) == (end, all) by {
                        assert(starts(p, r, next));
                    }
                }
            }
        }
    }
}

/// What was made last is among what was made.
proof fn lemma_made(
    created: Seq<RetainedCreatedWorkerDirectory>,
    kept: Seq<RetainedCreatedWorkerDirectory>,
    target: WorkerTarget,
)
    requires
        kept.len() == created.len() + 1,
        kept.drop_last() == created,
        kept.last().target == target,
    ensures
        forall|other: WorkerTarget| #[trigger]
            was_made(kept, other) <==> was_made(created, other) || other == target,
{
    assert forall|other: WorkerTarget| #[trigger]
        was_made(kept, other) <==> was_made(created, other) || other == target by {
        if was_made(created, other) {
            let i = choose|i: int|
                0 <= i < created.len() && (#[trigger] created[i]).target == other;
            assert(kept[i] == created[i]);
        }
        if other == target {
            assert(kept[created.len() as int].target == other);
        }
        if was_made(kept, other) {
            let i = choose|i: int| 0 <= i < kept.len() && (#[trigger] kept[i]).target == other;
            if i < created.len() {
                assert(kept[i] == created[i]);
            }
        }
    }
}

/// Whether it was seen which of the first directories in a root are there.
spec fn seen_on(volume: Volume, found: Seq<Option<NodeRecord>>) -> bool {
    forall|i: int|
        0 <= i < found.len() ==> match #[trigger] found[i] {
            Some(record) => {
                let target = WorkerTarget::Child { ordinal: i as usize };
                &&& (volume.present)(target)
                &&& record.target == target
                &&& record.disposition == WorkerDirectoryNodeDisposition::Existing
            },
            None => !(volume.present)(WorkerTarget::Child { ordinal: i as usize }),
        }
}

/// It is seen which of the directories in the root are there.
proof fn lemma_looked(
    plan: LayoutPlan,
    r: Seq<WorkerReply>,
    volume: Volume,
    at: nat,
    root: WorkerDirectoryRef,
    ordinal: nat,
    found: Seq<Option<NodeRecord>>,
)
    requires
        runs_on(plan, r, volume),
        at <= r.len(),
        found.len() == ordinal <= CHILD_COUNT,
        seen_on(volume, found),
        forall|p: Seq<WorkerReply>| #[trigger]
            starts(p, r, at) ==> (layout_mutation::looked(p, at, root, ordinal, found).0 matches
                WorkerStep::Ask(action) ==> layout_mutation::layout_run(plan, p) == (
            LayoutRun::Ask { action })),
    ensures
        ({
            let (step, all) = layout_mutation::looked(r, at, root, ordinal, found);
            &&& !layout_laws::makes(step)
            &&& step matches WorkerStep::Next(next) ==> {
                &&& at <= next <= r.len()
                &&& all.len() == CHILD_COUNT
                &&& seen_on(volume, all)
                &&& forall|p: Seq<WorkerReply>| #[trigger]
                    starts(p, r, next as nat) ==> layout_mutation::looked(
                        p,
                        at,
                        root,
                        ordinal,
                        found,
                    ) == (step, all)
            }
        }),
    decreases CHILD_COUNT - ordinal,
{
    if ordinal < CHILD_COUNT && at < r.len() {
        let i = at as int;
        let target = WorkerTarget::Child { ordinal: ordinal as usize };
        lemma_take(r, at);
        assert(starts(r.take(i), r, at));
        lemma_fits(plan, r, volume, at, WorkerAction::Open { parent: root, target });
        let directory = WorkerDirectoryRef::Opened { at: at as usize };
        let (step, all) = layout_mutation::looked(r, at, root, ordinal, found);
        let more = if r[i].result is Ok {
            Some(
                NodeRecord {
                    target,
                    directory,
                    disposition: WorkerDirectoryNodeDisposition::Existing,
                    identity: r[i + 2].identity,
                },
            )
        } else {
            None
        };
        let next: nat = if r[i].result is Ok {
            at + 3
        } else {
            at + 1
        };
        let goes_on = if r[i].result is Ok {
            at + 2 < r.len() && r[i + 1].result is Ok && r[i + 2].result is Ok
        } else {
            worker_ops::is_missing(r[i].result->Err_0)
        };
        if goes_on {
            assert forall|p: Seq<WorkerReply>| #[trigger]
                starts(p, r, next) implies layout_mutation::looked(p, at, root, ordinal, found)
                == layout_mutation::looked(p, next, root, ordinal + 1, found.push(more)) by {
                assert(p[i] == r[i]);
                if r[i].result is Ok {
                    assert(p[i + 1] == r[i + 1] && p[i + 2] == r[i + 2]);
                }
            }
            assert(starts(r, r, next));
            assert forall|p: Seq<WorkerReply>| #[trigger] starts(p, r, next) implies (
            layout_mutation::looked(p, next, root, ordinal + 1, found.push(more)).0 matches
                WorkerStep::Ask(action) ==> layout_mutation::layout_run(plan, p) == (
            LayoutRun::Ask { action })) by {
                assert(starts(p, r, at));
            }
            lemma_looked(plan, r, volume, next, root, ordinal + 1, found.push(more));
            if let WorkerStep::Next(end) = step {
                assert forall|p: Seq<WorkerReply>| #[trigger]
                    starts(p, r, end as nat) implies layout_mutation::looked(
                    p,
                    at,
                    root,
                    ordinal,
                    found,
                ) == (step, all) by {
                    assert(starts(p, r, next));
                }
            }
        }
    }
}

/// Whether the first directories in a root were made exactly if they were
/// missing.
spec fn filled_on(volume: Volume, children: Seq<NodeRecord>) -> bool {
    forall|i: int|
        0 <= i < children.len() ==> (#[trigger] children[i]).target == (WorkerTarget::Child {
            ordinal: i as usize,
        }) && children[i].disposition == disposition_on(
            volume,
            WorkerTarget::Child { ordinal: i as usize },
        )
}

/// What is missing in the root is made, and nothing else.
proof fn lemma_filled(
    plan: LayoutPlan,
    r: Seq<WorkerReply>,
    volume: Volume,
    at: nat,
    root: WorkerDirectoryRef,
    ordinal: nat,
    found: Seq<Option<NodeRecord>>,
    canonical: nat,
    created: Seq<RetainedCreatedWorkerDirectory>,
    children: Seq<NodeRecord>,
)
    requires
        runs_on(plan, r, volume),
        at <= r.len(),
        found.len() == CHILD_COUNT,
        seen_on(volume, found),
        children.len() == ordinal <= CHILD_COUNT,
        filled_on(volume, children),
        forall|p: Seq<WorkerReply>| #[trigger]
            starts(p, r, at) ==> (layout_mutation::filled(
                plan.control,
                p,
                at,
                root,
                ordinal,
                found,
                canonical,
                created,
                children,
            ).0 matches WorkerStep::Ask(action) ==> layout_mutation::layout_run(plan, p) == (
            LayoutRun::Ask { action })),
    ensures
        ({
            let (step, kept, all) = layout_mutation::filled(
                plan.control,
                r,
                at,
                root,
                ordinal,
                found,
                canonical,
                created,
                children,
            );
            &&& layout_laws::makes(step) ==> !(volume.present)(layout_laws::made(step))
            &&& step matches WorkerStep::Next(next) ==> {
                &&& at <= next <= r.len()
                &&& all.len() == CHILD_COUNT
                &&& filled_on(volume, all)
                &&& forall|target: WorkerTarget| #[trigger]
                    was_made(kept, target) <==> was_made(created, target) || (target matches
                        WorkerTarget::Child { ordinal: j } && ordinal <= j < CHILD_COUNT
                        && !(volume.present)(target))
                &&& forall|p: Seq<WorkerReply>| #[trigger]
                    starts(p, r, next as nat) ==> layout_mutation::filled(
                        plan.control,
                        p,
                        at,
                        root,
                        ordinal,
                        found,
                        canonical,
                        created,
                        children,
                    ) == (step, kept, all)
            }
        }),
    decreases CHILD_COUNT - ordinal,
{
    if ordinal < CHILD_COUNT {
        let target = WorkerTarget::Child { ordinal: ordinal as usize };
        let (end, made, all) = layout_mutation::filled(
            plan.control,
            r,
            at,
            root,
            ordinal,
            found,
            canonical,
            created,
            children,
        );
        match found[ordinal as int] {
            Some(record) => {
                let more = children.push(record);
                assert(filled_on(volume, more));
                lemma_filled(
                    plan,
                    r,
                    volume,
                    at,
                    root,
                    ordinal + 1,
                    found,
                    canonical,
                    created,
                    more,
                );
            },
            None => {
                lemma_placed(plan, r, volume, at, created, root, target, true);
                let (step, kept) = layout_mutation::placed(
                    plan.control,
                    r,
                    at,
                    created,
                    root,
                    target,
                    true,
                );
                if let WorkerStep::Next(placed) = step {
                    let next = placed.next as nat;
                    let more = children.push(placed.record);
                    lemma_made(created, kept, target);
                    assert(filled_on(volume, more));
                    if worker_ops::canonical_injection(plan.control, canonical + 1) is None {
                        assert forall|p: Seq<WorkerReply>| #[trigger] starts(p, r, next) implies (
                        layout_mutation::filled(
                            plan.control,
                            p,
                            next,
                            root,
                            ordinal + 1,
                            found,
                            canonical + 1,
                            kept,
                            more,
                        ).0 matches WorkerStep::Ask(action) ==> layout_mutation::layout_run(plan, p)
                            == (LayoutRun::Ask { action })) by {
                            assert(starts(p, r, at));
                        }
                        lemma_filled(
                            plan,
                            r,
                            volume,
                            next,
                            root,
                            ordinal + 1,
                            found,
                            canonical + 1,
                            kept,
                            more,
                        );
                        if let WorkerStep::Next(last) = end {
                            assert forall|p: Seq<WorkerReply>| #[trigger]
                                starts(p, r, last as nat) implies layout_mutation::filled(
                                plan.control,
                                p,
                                at,
                                root,
                                ordinal,
                                found,
                                canonical,
                                created,
                                children,
                            ) == (end, made, all) by {
                                assert(starts(p, r, next));
                            }
                        }
                    }
                }
            },
        }
    }
}

/// A last look sees each directory in the root where it stands.
proof fn lemma_children_confirmed(
    plan: LayoutPlan,
    r: Seq<WorkerReply>,
    volume: Volume,
    at: nat,
    root: WorkerDirectoryRef,
    ordinal: nat,
    children: Seq<NodeRecord>,
)
    requires
        runs_on(plan, r, volume),
        at <= r.len(),
        ordinal <= CHILD_COUNT,
        forall|p: Seq<WorkerReply>| #[trigger]
            starts(p, r, at) ==> (layout_mutation::children_confirmed(
                p,
                at,
                root,
                ordinal,
                children,
            ) matches WorkerStep::Ask(action) ==> layout_mutation::layout_run(plan, p) == (
            LayoutRun::Ask { action })),
    ensures
        ({
            let step = layout_mutation::children_confirmed(r, at, root, ordinal, children);
            &&& !layout_laws::makes(step)
            &&& step is Next ==> forall|i: int|
                ordinal <= i < CHILD_COUNT ==> (#[trigger] children[i]).identity == (
                volume.identity)(WorkerTarget::Child { ordinal: i as usize })
        }),
    decreases CHILD_COUNT - ordinal,
{
    if ordinal < CHILD_COUNT && at < r.len() {
        let i = at as int;
        let target = WorkerTarget::Child { ordinal: ordinal as usize };
        lemma_take(r, at);
        assert(starts(r.take(i), r, at));
        lemma_fits(plan, r, volume, at, WorkerAction::Reopen { parent: root, target });
        if r[i].result is Ok && r[i].identity == children[ordinal as int].identity {
            assert forall|p: Seq<WorkerReply>| #[trigger] starts(p, r, at + 1) implies (
            layout_mutation::children_confirmed(p, at + 1, root, ordinal + 1, children) matches
                WorkerStep::Ask(action) ==> layout_mutation::layout_run(plan, p) == (
            LayoutRun::Ask { action })) by {
                assert(starts(p, r, at));
                assert(p[i] == r[i]);
            }
            lemma_children_confirmed(plan, r, volume, at + 1, root, ordinal + 1, children);
        }
    }
}

/// A last look sees the root and the directories in it where they stand.
proof fn lemma_confirmed(
    plan: LayoutPlan,
    r: Seq<WorkerReply>,
    volume: Volume,
    at: nat,
    root: WorkerDirectoryRef,
    root_identity: WorkerDirectoryIdentity,
    children: Seq<NodeRecord>,
)
    requires
        runs_on(plan, r, volume),
        at <= r.len(),
        forall|p: Seq<WorkerReply>| #[trigger]
            starts(p, r, at) ==> (layout_mutation::confirmed(
                plan,
                p,
                at,
                root,
                root_identity,
                children,
            ) matches WorkerStep::Ask(action) ==> layout_mutation::layout_run(plan, p) == (
            LayoutRun::Ask { action })),
    ensures
        ({
            let step = layout_mutation::confirmed(plan, r, at, root, root_identity, children);
            &&& !layout_laws::makes(step)
            &&& step is Next ==> {
                &&& root_identity == (volume.identity)(layout_mutation::root_target(plan))
                &&& forall|i: int|
                    0 <= i < CHILD_COUNT ==> (#[trigger] children[i]).identity == (volume.identity)(
                        WorkerTarget::Child { ordinal: i as usize },
                    )
            }
        }),
{
    let i = at as int;
    let target = layout_mutation::root_target(plan);
    if at + 1 < r.len() && r[i].result is Ok && r[i].identity == root_identity {
        lemma_take(r, at + 1);
        assert(starts(r.take(i + 1), r, at));
        assert(r.take(i + 1)[i] == r[i]);
        lemma_fits(plan, r, volume, at + 1, WorkerAction::OpenPath { target });
        if r[i + 1].result is Ok && r[i + 1].identity == root_identity {
            assert forall|p: Seq<WorkerReply>| #[trigger] starts(p, r, at + 2) implies (
            layout_mutation::children_confirmed(p, at + 2, root, 0, children) matches
                WorkerStep::Ask(action) ==> layout_mutation::layout_run(plan, p) == (
            LayoutRun::Ask { action })) by {
                assert(starts(p, r, at));
                assert(p[i] == r[i] && p[i + 1] == r[i + 1]);
            }
            lemma_children_confirmed(plan, r, volume, at + 2, root, 0, children);
        }
    }
}

/// What is missing in a root that was reached is made, and nothing else.
proof fn lemma_furnished(
    plan: LayoutPlan,
    r: Seq<WorkerReply>,
    volume: Volume,
    root: ReachedRoot,
    created: Seq<RetainedCreatedWorkerDirectory>,
)
    requires
        runs_on(plan, r, volume),
        root.next <= r.len(),
        forall|p: Seq<WorkerReply>| #[trigger]
            starts(p, r, root.next as nat) ==> layout_mutation::layout_run(plan, p)
                == layout_mutation::furnished(plan, p, root, created),
    ensures
        forall|target: WorkerTarget|
            layout_laws::asks_to_make(
                layout_mutation::furnished(plan, r, root, created),
                target,
            ) ==> !#[trigger] (volume.present)(target),
        layout_mutation::furnished(plan, r, root, created) matches LayoutRun::Complete {
            root: record,
            children,
            created: kept,
        } ==> {
            &&& record.target == layout_mutation::root_target(plan)
            &&& record.disposition == root.disposition
            &&& record.identity == (volume.identity)(record.target)
            &&& children.len() == CHILD_COUNT
            &&& forall|i: int|
                0 <= i < CHILD_COUNT ==> stands_on(
                    volume,
                    #[trigger] children[i],
                    WorkerTarget::Child { ordinal: i as usize },
                )
            &&& forall|target: WorkerTarget| #[trigger]
                was_made(kept, target) <==> was_made(created, target) || (target matches
                    WorkerTarget::Child { ordinal } && ordinal < CHILD_COUNT && !(volume.present)(
                    target,
                ))
        },
{
    let empty = Seq::<Option<NodeRecord>>::empty();
    let nobody = Seq::<NodeRecord>::empty();
    let i = root.next as int;
    if root.next < r.len() && r[i].result is Ok {
        let next = (root.next + 1) as nat;
        assert forall|p: Seq<WorkerReply>| #[trigger] starts(p, r, next) implies starts(
            p,
            r,
            root.next as nat,
        ) && p[i] == r[i] by {}
        lemma_looked(plan, r, volume, next, root.directory, 0, empty);
        let (look, found) = layout_mutation::looked(r, next, root.directory, 0, empty);
        let canonical: nat = if root.disposition == WorkerDirectoryNodeDisposition::Created {
            1
        } else {
            0
        };
        if let WorkerStep::Next(start) = look {
            assert forall|p: Seq<WorkerReply>| #[trigger] starts(p, r, start as nat) implies starts(
                p,
                r,
                next,
            ) by {}
            lemma_filled(
                plan,
                r,
                volume,
                start as nat,
                root.directory,
                0,
                found,
                canonical,
                created,
                nobody,
            );
            let (fill, kept, children) = layout_mutation::filled(
                plan.control,
                r,
                start as nat,
                root.directory,
                0,
                found,
                canonical,
                created,
                nobody,
            );
            if let WorkerStep::Next(end) = fill {
                assert forall|p: Seq<WorkerReply>| #[trigger]
                    starts(p, r, end as nat) implies starts(p, r, start as nat) by {}
                lemma_confirmed(
                    plan,
                    r,
                    volume,
                    end as nat,
                    root.directory,
                    r[i].identity,
                    children,
                );
            }
        }
    }
}

// ---------------------------------------------------------------------------
// Laws
// ---------------------------------------------------------------------------

/// Exactly what is missing is made: a run never asks to make a place that is
/// taken. When it is complete, the root and the five directories in it are those
/// in their places, recorded as made if they were missing and as existing if
/// not, and what was made is what was missing of the layout.
pub proof fn exactly_what_is_missing_is_made(
    plan: LayoutPlan,
    replies: Seq<WorkerReply>,
    volume: Volume,
)
    requires
        runs_on(plan, replies, volume),
    ensures
        forall|target: WorkerTarget|
            layout_laws::asks_to_make(layout_mutation::layout_run(plan, replies), target)
                ==> !#[trigger] (volume.present)(target),
        layout_mutation::layout_run(plan, replies) matches LayoutRun::Complete {
            root,
            children,
            created,
        } ==> {
            &&& stands_on(volume, root, layout_mutation::root_target(plan))
            &&& children.len() == CHILD_COUNT
            &&& forall|i: int|
                0 <= i < CHILD_COUNT ==> stands_on(
                    volume,
                    #[trigger] children[i],
                    WorkerTarget::Child { ordinal: i as usize },
                )
            &&& forall|target: WorkerTarget| #[trigger]
                was_made(created, target) <==> layout_laws::in_layout(plan, target) && !(
                volume.present)(target)
        },
{
    let nothing = Seq::<RetainedCreatedWorkerDirectory>::empty();
    let r = replies;
    let first = plan.first_creatable as nat;
    let anchor = WorkerDirectoryRef::Anchor;
    let existing = WorkerDirectoryNodeDisposition::Existing;
    let injected = worker_ops::canonical_injection(plan.control, 0) is Some
        || worker_ops::native_injection(plan.control, 0) is Some;
    if !injected {
        lemma_followed(plan, r, volume, 0, first, anchor);
        if let WorkerStep::Next(prepared) = layout_mutation::followed(plan, r, 0, first, anchor) {
            let at = prepared.next as nat;
            let index = prepared.next_component as nat;
            let directory = prepared.directory;
            assert forall|j: usize| index <= j < plan.component_count implies !#[trigger] (
            volume.present)(WorkerTarget::Component { index: j }) by {
                let missing = WorkerTarget::Component { index: prepared.next_component };
                assert(!(volume.present)(missing));
            }
            lemma_grown(plan, r, volume, at, index, directory, existing, nothing);
            let (reached, created) = layout_mutation::grown(
                plan,
                r,
                at,
                index,
                directory,
                existing,
                nothing,
            );
            if let WorkerStep::Next(root) = reached {
                assert forall|p: Seq<WorkerReply>| #[trigger]
                    starts(p, r, root.next as nat) implies layout_mutation::layout_run(plan, p)
                    == layout_mutation::furnished(plan, p, root, created) by {
                    assert(starts(p, r, at));
                }
                assert(starts(r, r, root.next as nat));
                lemma_furnished(plan, r, volume, root, created);
                let place = layout_mutation::root_target(plan);
                assert((volume.present)(place) <==> index == plan.component_count);
                if let LayoutRun::Complete { created: kept, .. } = layout_mutation::layout_run(
                    plan,
                    r,
                ) {
                    assert forall|target: WorkerTarget| #[trigger]
                        was_made(kept, target) <==> layout_laws::in_layout(plan, target) && !(
                        volume.present)(target) by {
                        assert(!was_made(nothing, target));
                        assert(was_made(created, target) <==> (target matches
                            WorkerTarget::Component { index: j } && index <= j
                            < plan.component_count));
                        match target {
                            WorkerTarget::Component { index: j } => {
                                assert((volume.present)(WorkerTarget::Component { index: j })
                                    == (volume.present)(target));
                            },
                            WorkerTarget::Child { .. } => {},
                        }
                    }
                }
            }
        }
    }
}

/// A second run finds what the first one made or found: on the volume that a
/// complete run left, another complete run makes nothing and records the root
/// and the five directories in it as existing, each with the identity that the
/// first run gave it.
pub proof fn second_runs_find_what_the_first_made(
    plan: LayoutPlan,
    first: Seq<WorkerReply>,
    second: Seq<WorkerReply>,
    volume: Volume,
)
    requires
        runs_on(plan, first, volume),
        second.len() <= usize::MAX,
        layout_mutation::layout_run(plan, first) matches LayoutRun::Complete { created, .. }
            && answered_by(plan, second, left_by(volume, created)),
    ensures
        forall|target: WorkerTarget|
            !#[trigger] layout_laws::asks_to_make(
                layout_mutation::layout_run(plan, second),
                target,
            ),
        ({
            let earlier = layout_mutation::layout_run(plan, first);
            layout_mutation::layout_run(plan, second) matches LayoutRun::Complete {
                root,
                children,
                created,
            } ==> {
                &&& created.len() == 0
                &&& root.target == earlier->root.target
                &&& root.identity == earlier->root.identity
                &&& root.disposition == WorkerDirectoryNodeDisposition::Existing
                &&& children.len() == CHILD_COUNT
                &&& forall|i: int|
                    #![trigger children[i]]
                    0 <= i < CHILD_COUNT ==> {
                        &&& children[i].target == earlier->children[i].target
                        &&& children[i].identity == earlier->children[i].identity
                        &&& children[i].disposition == WorkerDirectoryNodeDisposition::Existing
                    }
            }
        }),
{
    let earlier = layout_mutation::layout_run(plan, first);
    let made = layout_laws::made_by(earlier);
    let after = left_by(volume, made);
    exactly_what_is_missing_is_made(plan, first, volume);
    assert forall|target: WorkerTarget| layout_laws::in_layout(plan, target) implies #[trigger] (
    after.present)(target) by {
        assert(was_made(made, target) || (volume.present)(target));
    }
    exactly_what_is_missing_is_made(plan, second, after);
    layout_laws::only_layout_places_are_made(plan, second, layout_mutation::root_target(plan));
    assert forall|target: WorkerTarget|
        !#[trigger] layout_laws::asks_to_make(
            layout_mutation::layout_run(plan, second),
            target,
        ) by {
        layout_laws::only_layout_places_are_made(plan, second, target);
        if layout_laws::asks_to_make(layout_mutation::layout_run(plan, second), target) {
            assert((after.present)(target));
        }
    }
    if let LayoutRun::Complete { root, children, created } = layout_mutation::layout_run(
        plan,
        second,
    ) {
        if created.len() > 0 {
            assert(was_made(created, created[0].target));
            assert((after.present)(created[0].target));
        }
        assert((after.present)(layout_mutation::root_target(plan)));
        assert forall|i: int|
            #![trigger children[i]]
            0 <= i < CHILD_COUNT implies {
            &&& children[i].target == earlier->children[i].target
            &&& children[i].identity == earlier->children[i].identity
            &&& children[i].disposition == WorkerDirectoryNodeDisposition::Existing
        } by {
            let target = WorkerTarget::Child { ordinal: i as usize };
            assert((after.present)(target));
            assert(stands_on(volume, earlier->children[i], target));
        }
    }
}

// ---------------------------------------------------------------------------
// Runs that succeed
// ---------------------------------------------------------------------------

/// The place of an open directory: what the operation that opened it was about.
pub open spec fn place(
    plan: LayoutPlan,
    replies: Seq<WorkerReply>,
    directory: WorkerDirectoryRef,
) -> Option<WorkerTarget> {
    match directory {
        WorkerDirectoryRef::Anchor => None,
        WorkerDirectoryRef::Opened { at } => match layout_mutation::layout_run(
            plan,
            replies.take(at as int),
        ) {
            LayoutRun::Ask { action: WorkerAction::Open { target, .. } } => Some(target),
            LayoutRun::Ask { action: WorkerAction::Create { target, .. } } => Some(target),
            _ => None,
        },
    }
}

/// Whether a reply is one of a volume that refuses nothing: what is there can be
/// opened and has the rules that it should have, what is missing can be made,
/// and an open directory is the one in its place.
pub open spec fn agrees(
    plan: LayoutPlan,
    replies: Seq<WorkerReply>,
    volume: Volume,
    action: WorkerAction,
    reply: WorkerReply,
) -> bool {
    match action {
        WorkerAction::Open { target, .. } => if (volume.present)(target) {
            reply.result is Ok
        } else {
            reply.result matches Err(failure) && worker_ops::is_missing(failure)
        },
        WorkerAction::Identify { directory } => {
            &&& reply.result is Ok
            &&& place(plan, replies, directory) matches Some(target) ==> reply.identity == (
            volume.identity)(target)
        },
        _ => reply.result is Ok,
    }
}

/// A run on a volume that refuses nothing.
pub open spec fn runs_freely_on(
    plan: LayoutPlan,
    replies: Seq<WorkerReply>,
    volume: Volume,
) -> bool {
    &&& runs_on(plan, replies, volume)
    &&& plan.control.fail_after_created is None
    &&& plan.control.fail_after_native_created is None
    &&& forall|at: int|
        0 <= at < replies.len() ==> (layout_mutation::layout_run(plan, #[trigger] replies.take(at))
            matches LayoutRun::Ask { action } ==> agrees(
            plan,
            replies,
            volume,
            action,
            replies[at],
        ))
}

proof fn lemma_agrees(
    plan: LayoutPlan,
    r: Seq<WorkerReply>,
    volume: Volume,
    at: nat,
    action: WorkerAction,
)
    requires
        runs_freely_on(plan, r, volume),
        at < r.len(),
        layout_mutation::layout_run(plan, r.take(at as int)) == (LayoutRun::Ask { action }),
    ensures
        agrees(plan, r, volume, action, r[at as int]),
        fits(volume, action, r[at as int]),
{
    let p = r.take(at as int);
}

/// The way to the root is followed without a failure.
proof fn lemma_followed_freely(
    plan: LayoutPlan,
    r: Seq<WorkerReply>,
    volume: Volume,
    at: nat,
    index: nat,
    directory: WorkerDirectoryRef,
)
    requires
        runs_freely_on(plan, r, volume),
        at <= r.len(),
        plan.first_creatable <= index <= plan.component_count,
        forall|p: Seq<WorkerReply>| #[trigger]
            starts(p, r, at) ==> (layout_mutation::followed(plan, p, at, index, directory) matches
                WorkerStep::Ask(action) ==> layout_mutation::layout_run(plan, p) == (
            LayoutRun::Ask { action })),
    ensures
        !(layout_mutation::followed(plan, r, at, index, directory) is Fail),
        layout_mutation::followed(plan, r, at, index, directory) is Ask ==> r.len() < at + 2 * (
        plan.component_count - index),
        layout_mutation::followed(plan, r, at, index, directory) matches WorkerStep::Next(
            prepared,
        ) ==> prepared.next <= at + 2 * (plan.component_count - index) && (index < plan.component_count && prepared.next_component == plan.component_count
            ==> place(plan, r, prepared.directory) == Some(layout_mutation::root_target(plan))),
    decreases plan.component_count - index,
{
    if index < plan.component_count && at < r.len() {
        let i = at as int;
        let target = WorkerTarget::Component { index: index as usize };
        let opened = WorkerDirectoryRef::Opened { at: at as usize };
        lemma_take(r, at);
        assert(starts(r.take(i), r, at));
        lemma_agrees(plan, r, volume, at, WorkerAction::Open { parent: directory, target });
        if at + 1 < r.len() {
            lemma_take(r, at + 1);
            assert(starts(r.take(i + 1), r, at));
            assert(r.take(i + 1)[i] == r[i]);
            let check = if r[i].result is Ok {
                worker_ops::existing_check(opened, index + 1 == plan.component_count)
            } else {
                WorkerAction::VerifyAncestor {
                    directory,
                    allow_create: plan.allow_untrusted_parent_create,
                }
            };
            lemma_agrees(plan, r, volume, at + 1, check);
            if r[i].result is Ok {
                assert forall|p: Seq<WorkerReply>| #[trigger] starts(p, r, at + 2) implies (
                layout_mutation::followed(plan, p, at + 2, index + 1, opened) matches
                    WorkerStep::Ask(action) ==> layout_mutation::layout_run(plan, p) == (
                LayoutRun::Ask { action })) by {
                    assert(starts(p, r, at));
                    assert(p[i] == r[i] && p[i + 1] == r[i + 1]);
                }
                lemma_followed_freely(plan, r, volume, at + 2, index + 1, opened);
            }
        }
    }
}

/// A directory that is there is found without a failure.
#[verifier::spinoff_prover]
#[verifier::rlimit(40)]
proof fn lemma_found_freely(
    plan: LayoutPlan,
    r: Seq<WorkerReply>,
    volume: Volume,
    at: nat,
    created: Seq<RetainedCreatedWorkerDirectory>,
    parent: WorkerDirectoryRef,
    target: WorkerTarget,
    canonical: bool,
)
    requires
        runs_freely_on(plan, r, volume),
        at <= r.len(),
        (volume.present)(target),
        forall|p: Seq<WorkerReply>| #[trigger]
            starts(p, r, at) ==> (layout_mutation::placed(
                plan.control,
                p,
                at,
                created,
                parent,
                target,
                canonical,
            ).0 matches WorkerStep::Ask(action) ==> layout_mutation::layout_run(plan, p) == (
            LayoutRun::Ask { action })),
    ensures
        ({
            let step = layout_mutation::placed(
                plan.control,
                r,
                at,
                created,
                parent,
                target,
                canonical,
            ).0;
            &&& !(step is Fail)
            &&& step is Ask ==> r.len() < at + 6
            &&& step matches WorkerStep::Next(placed) ==> {
                &&& placed.next <= at + 6
                &&& place(plan, r, placed.record.directory) == Some(target)
                &&& placed.record.identity == (volume.identity)(target)
            }
        }),
{
    let i = at as int;
    if at < r.len() {
        lemma_take(r, at);
        assert(starts(r.take(i), r, at));
        lemma_agrees(plan, r, volume, at, WorkerAction::Open { parent, target });
        let directory = WorkerDirectoryRef::Opened { at: at as usize };
        if at + 1 < r.len() {
            lemma_take(r, at + 1);
            assert(starts(r.take(i + 1), r, at));
            assert(r.take(i + 1)[i] == r[i]);
            lemma_agrees(
                plan,
                r,
                volume,
                at + 1,
                worker_ops::existing_check(directory, canonical),
            );
        }
        if at + 2 < r.len() {
            lemma_take(r, at + 2);
            let p = r.take(i + 2);
            assert(starts(p, r, at));
            assert(p[i] == r[i] && p[i + 1] == r[i + 1]);
            lemma_agrees(plan, r, volume, at + 2, WorkerAction::Identify { directory });
        }
    }
}

/// A directory that is missing is made without a failure.
#[verifier::spinoff_prover]
#[verifier::rlimit(40)]
proof fn lemma_created_freely(
    plan: LayoutPlan,
    r: Seq<WorkerReply>,
    volume: Volume,
    at: nat,
    created: Seq<RetainedCreatedWorkerDirectory>,
    parent: WorkerDirectoryRef,
    target: WorkerTarget,
    canonical: bool,
)
    requires
        runs_freely_on(plan, r, volume),
        at <= r.len(),
        !(volume.present)(target),
        forall|p: Seq<WorkerReply>| #[trigger]
            starts(p, r, at) ==> (layout_mutation::placed(
                plan.control,
                p,
                at,
                created,
                parent,
                target,
                canonical,
            ).0 matches WorkerStep::Ask(action) ==> layout_mutation::layout_run(plan, p) == (
            LayoutRun::Ask { action })),
    ensures
        ({
            let step = layout_mutation::placed(
                plan.control,
                r,
                at,
                created,
                parent,
                target,
                canonical,
            ).0;
            &&& !(step is Fail)
            &&& step is Ask ==> r.len() < at + 6
            &&& step matches WorkerStep::Next(placed) ==> {
                &&& placed.next <= at + 6
                &&& place(plan, r, placed.record.directory) == Some(target)
                &&& placed.record.identity == (volume.identity)(target)
            }
        }),
{
    let i = at as int;
    if at < r.len() {
        lemma_take(r, at);
        assert(starts(r.take(i), r, at));
        lemma_agrees(plan, r, volume, at, WorkerAction::Open { parent, target });
        if at + 1 < r.len() {
            let directory = WorkerDirectoryRef::Opened { at: (at + 1) as usize };
            lemma_take(r, at + 1);
            assert(starts(r.take(i + 1), r, at));
            assert(r.take(i + 1)[i] == r[i]);
            lemma_agrees(plan, r, volume, at + 1, WorkerAction::Create { parent, target });
            if at + 2 < r.len() {
                lemma_take(r, at + 2);
                let p = r.take(i + 2);
                assert(starts(p, r, at));
                assert(p[i] == r[i] && p[i + 1] == r[i + 1]);
                lemma_agrees(plan, r, volume, at + 2, WorkerAction::VerifyCanonical { directory });
            }
            if at + 3 < r.len() {
                lemma_take(r, at + 3);
                let p = r.take(i + 3);
                assert(starts(p, r, at));
                assert(p[i] == r[i] && p[i + 1] == r[i + 1] && p[i + 2] == r[i + 2]);
                lemma_agrees(plan, r, volume, at + 3, WorkerAction::Identify { directory });
            }
            if at + 4 < r.len() {
                lemma_take(r, at + 4);
                let p = r.take(i + 4);
                assert(starts(p, r, at));
                assert(p[i] == r[i] && p[i + 1] == r[i + 1] && p[i + 2] == r[i + 2] && p[i + 3]
                    == r[i + 3]);
                lemma_agrees(plan, r, volume, at + 4, WorkerAction::Reopen { parent, target });
            }
            if at + 5 < r.len() {
                lemma_take(r, at + 5);
                let p = r.take(i + 5);
                assert(starts(p, r, at));
                assert(p[i] == r[i] && p[i + 1] == r[i + 1] && p[i + 2] == r[i + 2] && p[i + 3]
                    == r[i + 3] && p[i + 4] == r[i + 4]);
                lemma_agrees(plan, r, volume, at + 5, WorkerAction::OpenPath { target });
            }
        }
    }
}

/// A directory is placed without a failure.
proof fn lemma_placed_freely(
    plan: LayoutPlan,
    r: Seq<WorkerReply>,
    volume: Volume,
    at: nat,
    created: Seq<RetainedCreatedWorkerDirectory>,
    parent: WorkerDirectoryRef,
    target: WorkerTarget,
    canonical: bool,
)
    requires
        runs_freely_on(plan, r, volume),
        at <= r.len(),
        forall|p: Seq<WorkerReply>| #[trigger]
            starts(p, r, at) ==> (layout_mutation::placed(
                plan.control,
                p,
                at,
                created,
                parent,
                target,
                canonical,
            ).0 matches WorkerStep::Ask(action) ==> layout_mutation::layout_run(plan, p) == (
            LayoutRun::Ask { action })),
    ensures
        ({
            let step = layout_mutation::placed(
                plan.control,
                r,
                at,
                created,
                parent,
                target,
                canonical,
            ).0;
            &&& !(step is Fail)
            &&& step is Ask ==> r.len() < at + 6
            &&& step matches WorkerStep::Next(placed) ==> {
                &&& placed.next <= at + 6
                &&& place(plan, r, placed.record.directory) == Some(target)
                &&& placed.record.identity == (volume.identity)(target)
            }
        }),
{
    if (volume.present)(target) {
        lemma_found_freely(plan, r, volume, at, created, parent, target, canonical);
    } else {
        lemma_created_freely(plan, r, volume, at, created, parent, target, canonical);
    }
}

/// What is missing on the way to the root is made without a failure.
proof fn lemma_grown_freely(
    plan: LayoutPlan,
    r: Seq<WorkerReply>,
    volume: Volume,
    at: nat,
    index: nat,
    directory: WorkerDirectoryRef,
    disposition: WorkerDirectoryNodeDisposition,
    created: Seq<RetainedCreatedWorkerDirectory>,
)
    requires
        runs_freely_on(plan, r, volume),
        at <= r.len(),
        plan.first_creatable <= index <= plan.component_count,
        forall|p: Seq<WorkerReply>| #[trigger]
            starts(p, r, at) ==> (layout_mutation::grown(
                plan,
                p,
                at,
                index,
                directory,
                disposition,
                created,
            ).0 matches WorkerStep::Ask(action) ==> layout_mutation::layout_run(plan, p) == (
            LayoutRun::Ask { action })),
    ensures
        ({
            let step = layout_mutation::grown(
                plan,
                r,
                at,
                index,
                directory,
                disposition,
                created,
            ).0;
            &&& !(step is Fail)
            &&& step is Ask ==> r.len() < at + 6 * (plan.component_count - index)
            &&& step matches WorkerStep::Next(root) ==> {
                &&& root.next <= at + 6 * (plan.component_count - index)
                &&& index < plan.component_count ==> place(plan, r, root.directory) == Some(
                    layout_mutation::root_target(plan),
                )
                &&& index >= plan.component_count ==> root.directory == directory
            }
        }),
    decreases plan.component_count - index,
{
    if index < plan.component_count {
        let is_root = index + 1 == plan.component_count;
        let target = WorkerTarget::Component { index: index as usize };
        lemma_placed(plan, r, volume, at, created, directory, target, is_root);
        lemma_placed_freely(plan, r, volume, at, created, directory, target, is_root);
        let (step, kept) = layout_mutation::placed(
            plan.control,
            r,
            at,
            created,
            directory,
            target,
            is_root,
        );
        if let WorkerStep::Next(placed) = step {
            let next = placed.next as nat;
            assert forall|p: Seq<WorkerReply>| #[trigger] starts(p, r, next) implies (
            layout_mutation::grown(
                plan,
                p,
                next,
                index + 1,
                placed.record.directory,
                placed.record.disposition,
                kept,
            ).0 matches WorkerStep::Ask(action) ==> layout_mutation::layout_run(plan, p) == (
            LayoutRun::Ask { action })) by {
                assert(starts(p, r, at));
            }
            lemma_grown_freely(
                plan,
                r,
                volume,
                next,
                index + 1,
                placed.record.directory,
                placed.record.disposition,
                kept,
            );
        }
    }
}

/// Whether the directories that were found are those in their places.
spec fn known(volume: Volume, found: Seq<Option<NodeRecord>>) -> bool {
    forall|i: int|
        0 <= i < found.len() ==> ((#[trigger] found[i]) matches Some(record) ==> record.identity == (
        volume.identity)(WorkerTarget::Child { ordinal: i as usize }))
}

/// It is seen without a failure which of the directories in the root are there.
proof fn lemma_looked_freely(
    plan: LayoutPlan,
    r: Seq<WorkerReply>,
    volume: Volume,
    at: nat,
    root: WorkerDirectoryRef,
    ordinal: nat,
    found: Seq<Option<NodeRecord>>,
)
    requires
        runs_freely_on(plan, r, volume),
        at <= r.len(),
        found.len() == ordinal <= CHILD_COUNT,
        known(volume, found),
        forall|p: Seq<WorkerReply>| #[trigger]
            starts(p, r, at) ==> (layout_mutation::looked(p, at, root, ordinal, found).0 matches
                WorkerStep::Ask(action) ==> layout_mutation::layout_run(plan, p) == (
            LayoutRun::Ask { action })),
    ensures
        ({
            let (step, all) = layout_mutation::looked(r, at, root, ordinal, found);
            &&& !(step is Fail)
            &&& step is Ask ==> r.len() < at + 3 * (CHILD_COUNT - ordinal)
            &&& step matches WorkerStep::Next(next) ==> next <= at + 3 * (CHILD_COUNT - ordinal)
                && known(volume, all)
        }),
    decreases CHILD_COUNT - ordinal,
{
    if ordinal < CHILD_COUNT && at < r.len() {
        let i = at as int;
        let target = WorkerTarget::Child { ordinal: ordinal as usize };
        let directory = WorkerDirectoryRef::Opened { at: at as usize };
        lemma_take(r, at);
        assert(starts(r.take(i), r, at));
        lemma_agrees(plan, r, volume, at, WorkerAction::Open { parent: root, target });
        if r[i].result is Ok {
            if at + 1 < r.len() {
                lemma_take(r, at + 1);
                assert(starts(r.take(i + 1), r, at));
                assert(r.take(i + 1)[i] == r[i]);
                lemma_agrees(plan, r, volume, at + 1, WorkerAction::VerifyCanonical { directory });
            }
            if at + 2 < r.len() {
                lemma_take(r, at + 2);
                let p = r.take(i + 2);
                assert(starts(p, r, at));
                assert(p[i] == r[i] && p[i + 1] == r[i + 1]);
                lemma_agrees(plan, r, volume, at + 2, WorkerAction::Identify { directory });
                let record = NodeRecord {
                    target,
                    directory,
                    disposition: WorkerDirectoryNodeDisposition::Existing,
                    identity: r[i + 2].identity,
                };
                let more = found.push(Some(record));
                assert forall|p: Seq<WorkerReply>| #[trigger] starts(p, r, at + 3) implies (
                layout_mutation::looked(p, at + 3, root, ordinal + 1, more).0 matches
                    WorkerStep::Ask(action) ==> layout_mutation::layout_run(plan, p) == (
                LayoutRun::Ask { action })) by {
                    assert(starts(p, r, at));
                    assert(p[i] == r[i] && p[i + 1] == r[i + 1] && p[i + 2] == r[i + 2]);
                }
                lemma_looked_freely(plan, r, volume, at + 3, root, ordinal + 1, more);
            }
        } else {
            let more = found.push(None);
            assert forall|p: Seq<WorkerReply>| #[trigger] starts(p, r, at + 1) implies (
            layout_mutation::looked(p, at + 1, root, ordinal + 1, more).0 matches WorkerStep::Ask(
                action,
            ) ==> layout_mutation::layout_run(plan, p) == (LayoutRun::Ask { action })) by {
                assert(starts(p, r, at));
                assert(p[i] == r[i]);
            }
            lemma_looked_freely(plan, r, volume, at + 1, root, ordinal + 1, more);
        }
    }
}

/// Whether the directories in a root are those in their places.
spec fn identified(volume: Volume, children: Seq<NodeRecord>) -> bool {
    forall|i: int|
        0 <= i < children.len() ==> (#[trigger] children[i]).identity == (volume.identity)(
            WorkerTarget::Child { ordinal: i as usize },
        )
}

/// What is missing in the root is made without a failure.
proof fn lemma_filled_freely(
    plan: LayoutPlan,
    r: Seq<WorkerReply>,
    volume: Volume,
    at: nat,
    root: WorkerDirectoryRef,
    ordinal: nat,
    found: Seq<Option<NodeRecord>>,
    canonical: nat,
    created: Seq<RetainedCreatedWorkerDirectory>,
    children: Seq<NodeRecord>,
)
    requires
        runs_freely_on(plan, r, volume),
        at <= r.len(),
        found.len() == CHILD_COUNT,
        known(volume, found),
        children.len() == ordinal <= CHILD_COUNT,
        identified(volume, children),
        forall|p: Seq<WorkerReply>| #[trigger]
            starts(p, r, at) ==> (layout_mutation::filled(
                plan.control,
                p,
                at,
                root,
                ordinal,
                found,
                canonical,
                created,
                children,
            ).0 matches WorkerStep::Ask(action) ==> layout_mutation::layout_run(plan, p) == (
            LayoutRun::Ask { action })),
    ensures
        ({
            let (step, kept, all) = layout_mutation::filled(
                plan.control,
                r,
                at,
                root,
                ordinal,
                found,
                canonical,
                created,
                children,
            );
            &&& !(step is Fail)
            &&& step is Ask ==> r.len() < at + 6 * (CHILD_COUNT - ordinal)
            &&& step matches WorkerStep::Next(next) ==> {
                &&& next <= at + 6 * (CHILD_COUNT - ordinal)
                &&& all.len() == CHILD_COUNT
                &&& identified(volume, all)
            }
        }),
    decreases CHILD_COUNT - ordinal,
{
    if ordinal < CHILD_COUNT {
        let target = WorkerTarget::Child { ordinal: ordinal as usize };
        match found[ordinal as int] {
            Some(record) => {
                lemma_filled_freely(
                    plan,
                    r,
                    volume,
                    at,
                    root,
                    ordinal + 1,
                    found,
                    canonical,
                    created,
                    children.push(record),
                );
            },
            None => {
                lemma_placed(plan, r, volume, at, created, root, target, true);
                lemma_placed_freely(plan, r, volume, at, created, root, target, true);
                let (step, kept) = layout_mutation::placed(
                    plan.control,
                    r,
                    at,
                    created,
                    root,
                    target,
                    true,
                );
                if let WorkerStep::Next(placed) = step {
                    let next = placed.next as nat;
                    let count = if placed.record.disposition
                        == WorkerDirectoryNodeDisposition::Created {
                        canonical + 1
                    } else {
                        canonical
                    };
                    let more = children.push(placed.record);
                    assert forall|p: Seq<WorkerReply>| #[trigger] starts(p, r, next) implies (
                    layout_mutation::filled(
                        plan.control,
                        p,
                        next,
                        root,
                        ordinal + 1,
                        found,
                        count,
                        kept,
                        more,
                    ).0 matches WorkerStep::Ask(action) ==> layout_mutation::layout_run(plan, p)
                        == (LayoutRun::Ask { action })) by {
                        assert(starts(p, r, at));
                    }
                    lemma_filled_freely(
                        plan,
                        r,
                        volume,
                        next,
                        root,
                        ordinal + 1,
                        found,
                        count,
                        kept,
                        more,
                    );
                }
            },
        }
    }
}

/// A last look at the directories in the root does not fail.
proof fn lemma_children_confirmed_freely(
    plan: LayoutPlan,
    r: Seq<WorkerReply>,
    volume: Volume,
    at: nat,
    root: WorkerDirectoryRef,
    ordinal: nat,
    children: Seq<NodeRecord>,
)
    requires
        runs_freely_on(plan, r, volume),
        at <= r.len(),
        ordinal <= CHILD_COUNT == children.len(),
        identified(volume, children),
        forall|p: Seq<WorkerReply>| #[trigger]
            starts(p, r, at) ==> (layout_mutation::children_confirmed(
                p,
                at,
                root,
                ordinal,
                children,
            ) matches WorkerStep::Ask(action) ==> layout_mutation::layout_run(plan, p) == (
            LayoutRun::Ask { action })),
    ensures
        !(layout_mutation::children_confirmed(r, at, root, ordinal, children) is Fail),
        layout_mutation::children_confirmed(r, at, root, ordinal, children) is Ask ==> r.len() < at
            + CHILD_COUNT - ordinal,
    decreases CHILD_COUNT - ordinal,
{
    if ordinal < CHILD_COUNT && at < r.len() {
        let i = at as int;
        let target = WorkerTarget::Child { ordinal: ordinal as usize };
        lemma_take(r, at);
        assert(starts(r.take(i), r, at));
        lemma_agrees(plan, r, volume, at, WorkerAction::Reopen { parent: root, target });
        assert(children[ordinal as int].identity == r[i].identity);
        assert forall|p: Seq<WorkerReply>| #[trigger] starts(p, r, at + 1) implies (
        layout_mutation::children_confirmed(p, at + 1, root, ordinal + 1, children) matches
            WorkerStep::Ask(action) ==> layout_mutation::layout_run(plan, p) == (LayoutRun::Ask {
            action,
        })) by {
            assert(starts(p, r, at));
            assert(p[i] == r[i]);
        }
        lemma_children_confirmed_freely(plan, r, volume, at + 1, root, ordinal + 1, children);
    }
}

/// A last look does not fail.
proof fn lemma_confirmed_freely(
    plan: LayoutPlan,
    r: Seq<WorkerReply>,
    volume: Volume,
    at: nat,
    root: WorkerDirectoryRef,
    root_identity: WorkerDirectoryIdentity,
    children: Seq<NodeRecord>,
)
    requires
        runs_freely_on(plan, r, volume),
        at <= r.len(),
        place(plan, r, root) == Some(layout_mutation::root_target(plan)),
        root_identity == (volume.identity)(layout_mutation::root_target(plan)),
        children.len() == CHILD_COUNT,
        identified(volume, children),
        forall|p: Seq<WorkerReply>| #[trigger]
            starts(p, r, at) ==> (layout_mutation::confirmed(
                plan,
                p,
                at,
                root,
                root_identity,
                children,
            ) matches WorkerStep::Ask(action) ==> layout_mutation::layout_run(plan, p) == (
            LayoutRun::Ask { action })),
    ensures
        !(layout_mutation::confirmed(plan, r, at, root, root_identity, children) is Fail),
        layout_mutation::confirmed(plan, r, at, root, root_identity, children) is Ask ==> r.len()
            < at + CHILD_COUNT + 2,
{
    let i = at as int;
    let target = layout_mutation::root_target(plan);
    if at < r.len() {
        lemma_take(r, at);
        assert(starts(r.take(i), r, at));
        lemma_agrees(plan, r, volume, at, WorkerAction::Identify { directory: root });
    }
    if at + 1 < r.len() {
        lemma_take(r, at + 1);
        assert(starts(r.take(i + 1), r, at));
        assert(r.take(i + 1)[i] == r[i]);
        lemma_agrees(plan, r, volume, at + 1, WorkerAction::OpenPath { target });
        assert forall|p: Seq<WorkerReply>| #[trigger] starts(p, r, at + 2) implies (
        layout_mutation::children_confirmed(p, at + 2, root, 0, children) matches WorkerStep::Ask(
            action,
        ) ==> layout_mutation::layout_run(plan, p) == (LayoutRun::Ask { action })) by {
            assert(starts(p, r, at));
            assert(p[i] == r[i] && p[i + 1] == r[i + 1]);
        }
        lemma_children_confirmed_freely(plan, r, volume, at + 2, root, 0, children);
    }
}

/// The number of operations after which a run that nothing refuses is over.
pub open spec fn operation_limit(plan: LayoutPlan) -> int {
    8 * (plan.component_count - plan.first_creatable) + 53
}

/// The directories in a root that was reached are made without a failure.
proof fn lemma_furnished_freely(
    plan: LayoutPlan,
    r: Seq<WorkerReply>,
    volume: Volume,
    root: ReachedRoot,
    created: Seq<RetainedCreatedWorkerDirectory>,
)
    requires
        runs_freely_on(plan, r, volume),
        root.next <= r.len(),
        place(plan, r, root.directory) == Some(layout_mutation::root_target(plan)),
        forall|p: Seq<WorkerReply>| #[trigger]
            starts(p, r, root.next as nat) ==> layout_mutation::layout_run(plan, p)
                == layout_mutation::furnished(plan, p, root, created),
    ensures
        !(layout_mutation::furnished(plan, r, root, created) is Failed),
        layout_mutation::furnished(plan, r, root, created) is Ask ==> r.len() < root.next + 53,
{
    let empty = Seq::<Option<NodeRecord>>::empty();
    let nobody = Seq::<NodeRecord>::empty();
    let i = root.next as int;
    if root.next < r.len() {
        let next = (root.next + 1) as nat;
        lemma_take(r, root.next as nat);
        assert(starts(r.take(i), r, root.next as nat));
        lemma_agrees(
            plan,
            r,
            volume,
            root.next as nat,
            WorkerAction::Identify { directory: root.directory },
        );
        assert forall|p: Seq<WorkerReply>| #[trigger] starts(p, r, next) implies starts(
            p,
            r,
            root.next as nat,
        ) && p[i] == r[i] by {}
        lemma_looked(plan, r, volume, next, root.directory, 0, empty);
        lemma_looked_freely(plan, r, volume, next, root.directory, 0, empty);
        let (look, found) = layout_mutation::looked(r, next, root.directory, 0, empty);
        let canonical: nat = if root.disposition == WorkerDirectoryNodeDisposition::Created {
            1
        } else {
            0
        };
        if let WorkerStep::Next(start) = look {
            assert forall|p: Seq<WorkerReply>| #[trigger] starts(p, r, start as nat) implies starts(
                p,
                r,
                next,
            ) by {}
            lemma_filled(
                plan,
                r,
                volume,
                start as nat,
                root.directory,
                0,
                found,
                canonical,
                created,
                nobody,
            );
            lemma_filled_freely(
                plan,
                r,
                volume,
                start as nat,
                root.directory,
                0,
                found,
                canonical,
                created,
                nobody,
            );
            let (fill, kept, children) = layout_mutation::filled(
                plan.control,
                r,
                start as nat,
                root.directory,
                0,
                found,
                canonical,
                created,
                nobody,
            );
            if let WorkerStep::Next(end) = fill {
                assert forall|p: Seq<WorkerReply>| #[trigger]
                    starts(p, r, end as nat) implies starts(p, r, start as nat) by {}
                lemma_confirmed_freely(
                    plan,
                    r,
                    volume,
                    end as nat,
                    root.directory,
                    r[i].identity,
                    children,
                );
            }
        }
    }
}

/// A run that nothing refuses is completed: on such a volume it never fails, and
/// after a number of operations that depends only on the length of the way to
/// the root it is complete.
pub proof fn runs_that_nothing_refuses_are_completed(
    plan: LayoutPlan,
    replies: Seq<WorkerReply>,
    volume: Volume,
)
    requires
        runs_freely_on(plan, replies, volume),
    ensures
        !(layout_mutation::layout_run(plan, replies) is Failed),
        replies.len() >= operation_limit(plan) ==> layout_mutation::layout_run(
            plan,
            replies,
        ) is Complete,
{
    let nothing = Seq::<RetainedCreatedWorkerDirectory>::empty();
    let r = replies;
    let first = plan.first_creatable as nat;
    let anchor = WorkerDirectoryRef::Anchor;
    let existing = WorkerDirectoryNodeDisposition::Existing;
    lemma_followed(plan, r, volume, 0, first, anchor);
    lemma_followed_freely(plan, r, volume, 0, first, anchor);
    if let WorkerStep::Next(prepared) = layout_mutation::followed(plan, r, 0, first, anchor) {
        let at = prepared.next as nat;
        let index = prepared.next_component as nat;
        let directory = prepared.directory;
        assert forall|j: usize| index <= j < plan.component_count implies !#[trigger] (
        volume.present)(WorkerTarget::Component { index: j }) by {
            let missing = WorkerTarget::Component { index: prepared.next_component };
            assert(!(volume.present)(missing));
        }
        lemma_grown(plan, r, volume, at, index, directory, existing, nothing);
        lemma_grown_freely(plan, r, volume, at, index, directory, existing, nothing);
        let (reached, created) = layout_mutation::grown(
            plan,
            r,
            at,
            index,
            directory,
            existing,
            nothing,
        );
        if let WorkerStep::Next(root) = reached {
            assert forall|p: Seq<WorkerReply>| #[trigger]
                starts(p, r, root.next as nat) implies layout_mutation::layout_run(plan, p)
                == layout_mutation::furnished(plan, p, root, created) by {
                assert(starts(p, r, at));
            }
            assert(starts(r, r, root.next as nat));
            lemma_furnished_freely(plan, r, volume, root, created);
        }
    }
}

// ---------------------------------------------------------------------------
// What is reported
// ---------------------------------------------------------------------------

/// A call that makes a layout: what was answered, what the run came to, what was
/// checked around it, and what the call gave back.
pub ghost struct LayoutCall<Lease> {
    pub replies: Seq<WorkerReply>,
    pub failure: Option<PlatformError>,
    pub evidence: WorkerMutationEvidence,
    pub checks: CreationChecks,
    pub cleanup: Result<(), PrivilegeError>,
    pub lease: Lease,
    pub result: Result<
        WorkerDirectoryCreation<WorkerDirectoryLease<Lease>>,
        WorkerDirectoryCreationError<Lease>,
    >,
}

/// Whether a call is one on this layout: `perform_worker_directory_mutation` came
/// to its end on the replies, and `create_worker_directory_layout` settled that.
pub open spec fn makes_layout<Lease>(
    layout: LayoutModel,
    plan: LayoutPlan,
    call: LayoutCall<Lease>,
) -> bool {
    let step = LayoutStep::Done { failure: call.failure, evidence: call.evidence };
    let run = MutationRun::Ran {
        mutation: WindowsPrivilegedWorkerMutation {
            operation_error: call.failure,
            evidence: call.evidence,
        },
        cleanup: call.cleanup,
    };
    &&& plan.component_count == layout.root.components.len()
    &&& layout_mutation::run_of(step) == layout_mutation::layout_run(plan, call.replies)
    &&& layout_mutation::coherent_step(step)
    &&& match worker_create::settled_run(call.checks, run) {
        Err(failure) => call.result == Err::<
            WorkerDirectoryCreation<WorkerDirectoryLease<Lease>>,
            _,
        >(WorkerDirectoryCreationError::<Lease>::Native { error: failure }),
        Ok(resolution) => worker_outcome::layout_settled(
            resolution,
            layout.root,
            call.lease,
            call.result,
        ),
    }
}

/// What a successful call observed of the directories of the layout.
pub open spec fn observed_by<Lease>(call: LayoutCall<Lease>) -> Seq<ObservationModel> {
    evidence::observations_model(call.result->Ok_0.nodes@)
}

/// What the run of a call made.
pub open spec fn made_in<Lease>(call: LayoutCall<Lease>) -> Seq<RetainedCreatedWorkerDirectory> {
    worker_outcome::layout_created(call.evidence).created@
}

/// The place of one of the six directories of a layout.
pub open spec fn fixed_target(plan: LayoutPlan, i: int) -> WorkerTarget {
    if i == 0 {
        layout_mutation::root_target(plan)
    } else {
        WorkerTarget::Child { ordinal: (i - 1) as usize }
    }
}

proof fn lemma_observed<Lease>(
    layout: LayoutModel,
    plan: LayoutPlan,
    call: LayoutCall<Lease>,
    volume: Volume,
)
    requires
        makes_layout(layout, plan, call),
        call.result is Ok,
        runs_on(plan, call.replies, volume),
    ensures
        layout_mutation::layout_run(plan, call.replies) is Complete,
        layout_laws::made_by(layout_mutation::layout_run(plan, call.replies)) == made_in(call),
        observed_by(call).len() == layout::fixed_nodes().len(),
        forall|i: int|
            0 <= i < layout::fixed_nodes().len() ==> {
                let target = fixed_target(plan, i);
                &&& Some((#[trigger] observed_by(call)[i]).path) == layout::node_path(
                    layout,
                    layout::fixed_nodes()[i],
                )
                &&& observed_by(call)[i].disposition == disposition_on(volume, target)
                &&& observed_by(call)[i].identity == (volume.identity)(target)
            },
{
    exactly_what_is_missing_is_made(plan, call.replies, volume);
    if let WorkerMutationEvidence::Complete { root, children, created } = call.evidence {
        let records = worker_outcome::all_records(root, children@);
        let observations = records.map_values(
            |record: NodeRecord| worker_outcome::observation_of(layout.root, record),
        );
        assert(observed_by(call) == observations);
        assert forall|i: int| 0 <= i < layout::fixed_nodes().len() implies {
            let target = fixed_target(plan, i);
            &&& Some((#[trigger] observed_by(call)[i]).path) == layout::node_path(
                layout,
                layout::fixed_nodes()[i],
            )
            &&& observed_by(call)[i].disposition == disposition_on(volume, target)
            &&& observed_by(call)[i].identity == (volume.identity)(target)
        } by {
            let record = records[i];
            assert(observed_by(call)[i] == worker_outcome::observation_of(layout.root, record));
            if i > 0 {
                assert(record == children@[i - 1]);
            }
            assert(stands_on(volume, record, fixed_target(plan, i)));
        }
    }
}

/// A layout is reported as it stands on the volume, and a second time as it was
/// reported first. Where two calls on a layout succeed, the second on the volume
/// that the first left, each reports the root, `repos`, `jobs`, `cache`,
/// `artifacts` and `logs`, in this order and at their paths. The first reports as
/// made what was missing and as existing what was not; the second made nothing
/// and reports everything as existing, each directory with the identity that the
/// first reported.
pub proof fn layouts_are_reported_made_and_then_existing<Lease>(
    layout: LayoutModel,
    plan: LayoutPlan,
    first: LayoutCall<Lease>,
    second: LayoutCall<Lease>,
    volume: Volume,
)
    requires
        runs_on(plan, first.replies, volume),
        makes_layout(layout, plan, first),
        first.result is Ok,
        second.replies.len() <= usize::MAX,
        answered_by(plan, second.replies, left_by(volume, made_in(first))),
        makes_layout(layout, plan, second),
        second.result is Ok,
    ensures
        made_in(second).len() == 0,
        forall|at: int, target: WorkerTarget|
            0 <= at <= second.replies.len() ==> !#[trigger] layout_laws::asks_to_make(
                layout_mutation::layout_run(plan, second.replies.take(at)),
                target,
            ),
        observed_by(first).len() == layout::fixed_nodes().len(),
        observed_by(second).len() == layout::fixed_nodes().len(),
        forall|i: int|
            #![trigger observed_by(first)[i]]
            #![trigger observed_by(second)[i]]
            0 <= i < layout::fixed_nodes().len() ==> {
                &&& Some(observed_by(first)[i].path) == layout::node_path(
                    layout,
                    layout::fixed_nodes()[i],
                )
                &&& observed_by(first)[i].disposition == disposition_on(
                    volume,
                    fixed_target(plan, i),
                )
                &&& observed_by(second)[i].path == observed_by(first)[i].path
                &&& observed_by(second)[i].identity == observed_by(first)[i].identity
                &&& observed_by(second)[i].disposition == WorkerDirectoryNodeDisposition::Existing
            },
{
    let after = left_by(volume, made_in(first));
    lemma_observed(layout, plan, first, volume);
    exactly_what_is_missing_is_made(plan, first.replies, volume);
    assert forall|target: WorkerTarget| layout_laws::in_layout(plan, target) implies #[trigger] (
    after.present)(target) by {
        assert(was_made(made_in(first), target) || (volume.present)(target));
    }
    lemma_observed(layout, plan, second, after);
    second_runs_find_what_the_first_made(plan, first.replies, second.replies, volume);
    assert forall|at: int, target: WorkerTarget|
        0 <= at <= second.replies.len() implies !#[trigger] layout_laws::asks_to_make(
        layout_mutation::layout_run(plan, second.replies.take(at)),
        target,
    ) by {
        let start = second.replies.take(at);
        assert forall|k: int| 0 <= k < start.len() implies (layout_mutation::layout_run(
            plan,
            #[trigger] start.take(k),
        ) matches LayoutRun::Ask { action } ==> fits(after, action, start[k])) by {
            assert(start.take(k) =~= second.replies.take(k));
        }
        second_runs_find_what_the_first_made(plan, first.replies, start, volume);
    }
    assert forall|i: int|
        #![trigger observed_by(first)[i]]
        #![trigger observed_by(second)[i]]
        0 <= i < layout::fixed_nodes().len() implies {
        &&& Some(observed_by(first)[i].path) == layout::node_path(layout, layout::fixed_nodes()[i])
        &&& observed_by(first)[i].disposition == disposition_on(volume, fixed_target(plan, i))
        &&& observed_by(second)[i].path == observed_by(first)[i].path
        &&& observed_by(second)[i].identity == observed_by(first)[i].identity
        &&& observed_by(second)[i].disposition == WorkerDirectoryNodeDisposition::Existing
    } by {
        let earlier = observed_by(first)[i];
        let later = observed_by(second)[i];
        assert((after.present)(fixed_target(plan, i)));
    }
}

} // verus!
