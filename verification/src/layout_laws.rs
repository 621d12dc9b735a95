//! What holds of making a layout, whatever the replies: only places of the
//! layout are made, and whatever was made is accounted for.

use crate::layout_mutation;
use crate::layout_mutation::{LayoutPlan, LayoutRun, NodeRecord, ReachedRoot, CHILD_COUNT};
use crate::worker_ops;
use crate::worker_ops::{
    OpenOrCreated, RetainedCreatedWorkerDirectory, WorkerAction, WorkerDirectoryNodeDisposition,
    WorkerDirectoryRef, WorkerMutationControl, WorkerReply, WorkerStep, WorkerTarget,
};
use vstd::prelude::*;

verus! {

/// The places of a layout that may be made.
pub open spec fn in_layout(plan: LayoutPlan, target: WorkerTarget) -> bool {
    match target {
        WorkerTarget::Component { index } => plan.first_creatable <= index < plan.component_count,
        WorkerTarget::Child { ordinal } => ordinal < CHILD_COUNT,
    }
}

/// Everything that was made is a place of the layout.
pub open spec fn all_in_layout(
    plan: LayoutPlan,
    created: Seq<RetainedCreatedWorkerDirectory>,
) -> bool {
    forall|i: int| 0 <= i < created.len() ==> in_layout(plan, (#[trigger] created[i]).target)
}

/// Whether the directory that operation number `at` made at `target` is among
/// what was made.
pub open spec fn accounts_for(
    created: Seq<RetainedCreatedWorkerDirectory>,
    at: nat,
    target: WorkerTarget,
) -> bool {
    exists|i: int|
        0 <= i < created.len() && (#[trigger] created[i]).directory == (WorkerDirectoryRef::Opened {
            at: at as usize,
        }) && created[i].target == target
}

/// Whether replies continue others.
pub open spec fn continues(earlier: Seq<WorkerReply>, later: Seq<WorkerReply>) -> bool {
    &&& earlier.len() <= later.len() <= usize::MAX
    &&& forall|i: int| 0 <= i < earlier.len() ==> #[trigger] earlier[i] == later[i]
}

/// Whether what was made later continues what was made before.
pub open spec fn keeps(
    earlier: Seq<RetainedCreatedWorkerDirectory>,
    later: Seq<RetainedCreatedWorkerDirectory>,
) -> bool {
    &&& earlier.len() <= later.len()
    &&& forall|i: int| 0 <= i < earlier.len() ==> #[trigger] later[i] == earlier[i]
}

proof fn lemma_keeps_account(
    earlier: Seq<RetainedCreatedWorkerDirectory>,
    later: Seq<RetainedCreatedWorkerDirectory>,
    at: nat,
    target: WorkerTarget,
)
    requires
        keeps(earlier, later),
        accounts_for(earlier, at, target),
    ensures
        accounts_for(later, at, target),
{
    let i = choose|i: int|
        0 <= i < earlier.len() && (#[trigger] earlier[i]).directory == (WorkerDirectoryRef::Opened {
            at: at as usize,
        }) && earlier[i].target == target;
    assert(later[i] == earlier[i]);
}

/// Whether a step asks to make something.
pub open spec fn makes<T>(step: WorkerStep<T>) -> bool {
    step matches WorkerStep::Ask(WorkerAction::Create { .. })
}

/// The place that a step asks to make.
pub open spec fn made<T>(step: WorkerStep<T>) -> WorkerTarget {
    match step {
        WorkerStep::Ask(WorkerAction::Create { target, .. }) => target,
        _ => WorkerTarget::Child { ordinal: 0 },
    }
}

proof fn lemma_opened(
    p: Seq<WorkerReply>,
    r: Seq<WorkerReply>,
    at: nat,
    parent: WorkerDirectoryRef,
    target: WorkerTarget,
    canonical: bool,
)
    requires
        continues(p, r),
        at <= p.len(),
    ensures
        ({
            let before = worker_ops::opened_or_created(p, at, parent, target, canonical);
            let after = worker_ops::opened_or_created(r, at, parent, target, canonical);
            &&& !(before is Ask) ==> after == before
            &&& before matches WorkerStep::Next(opened) ==> at < opened.next <= p.len()
            &&& makes(before) ==> made(before) == target && (p.len() < r.len()
                && r[p.len() as int].result is Ok ==> after == WorkerStep::Next(
                OpenOrCreated {
                    directory: WorkerDirectoryRef::Opened { at: p.len() as usize },
                    existing: None,
                    next: (p.len() + 1) as usize,
                },
            ))
        }),
{
}

proof fn lemma_reverified(
    p: Seq<WorkerReply>,
    r: Seq<WorkerReply>,
    at: nat,
    created: RetainedCreatedWorkerDirectory,
)
    requires
        continues(p, r),
        at <= p.len(),
    ensures
        ({
            let before = worker_ops::reverified(p, at, created);
            let after = worker_ops::reverified(r, at, created);
            &&& !(before is Ask) ==> after == before
            &&& !makes(before)
            &&& before is Next ==> at + 4 <= p.len()
        }),
{
}

proof fn lemma_retained(
    control: WorkerMutationControl,
    p: Seq<WorkerReply>,
    r: Seq<WorkerReply>,
    created: Seq<RetainedCreatedWorkerDirectory>,
    opened: OpenOrCreated,
    parent: WorkerDirectoryRef,
    target: WorkerTarget,
)
    requires
        continues(p, r),
        opened.next <= p.len(),
    ensures
        ({
            let (before, kept) = layout_mutation::retained(
                control,
                p,
                created,
                opened,
                parent,
                target,
            );
            let after = layout_mutation::retained(control, r, created, opened, parent, target);
            &&& !(before is Ask) ==> after == (before, kept)
            &&& !makes(before)
            &&& keeps(created, kept)
            &&& keeps(created, after.1)
            &&& before matches WorkerStep::Next(placed) ==> opened.next <= placed.next <= p.len()
        }),
{
    lemma_reverified(
        p,
        r,
        opened.next as nat,
        RetainedCreatedWorkerDirectory {
            target,
            parent,
            directory: opened.directory,
            identity: None,
        },
    );
}

pub proof fn lemma_placed(
    control: WorkerMutationControl,
    p: Seq<WorkerReply>,
    r: Seq<WorkerReply>,
    at: nat,
    created: Seq<RetainedCreatedWorkerDirectory>,
    parent: WorkerDirectoryRef,
    target: WorkerTarget,
    canonical: bool,
)
    requires
        continues(p, r),
        at <= p.len(),
    ensures
        ({
            let (before, kept) = layout_mutation::placed(
                control,
                p,
                at,
                created,
                parent,
                target,
                canonical,
            );
            let (after, later) = layout_mutation::placed(
                control,
                r,
                at,
                created,
                parent,
                target,
                canonical,
            );
            &&& !(before is Ask) ==> (after, later) == (before, kept)
            &&& keeps(created, kept)
            &&& keeps(created, later)
            &&& before matches WorkerStep::Next(placed) ==> at < placed.next <= p.len()
            &&& makes(before) ==> made(before) == target && (p.len() < r.len()
                && r[p.len() as int].result is Ok ==> accounts_for(later, p.len(), target))
            &&& forall|plan: LayoutPlan|
                #![trigger all_in_layout(plan, created)]
                all_in_layout(plan, created) && in_layout(plan, target) ==> all_in_layout(
                    plan,
                    kept,
                )
        }),
{
    lemma_opened(p, r, at, parent, target, canonical);
    let before = worker_ops::opened_or_created(p, at, parent, target, canonical);
    let after = worker_ops::opened_or_created(r, at, parent, target, canonical);
    if let WorkerStep::Next(opened) = before {
        lemma_retained(control, p, r, created, opened, parent, target);
    }
    lemma_opened(r, r, at, parent, target, canonical);
    if let WorkerStep::Next(opened) = after {
        lemma_retained(control, r, r, created, opened, parent, target);
        if makes(before) && p.len() < r.len() && r[p.len() as int].result is Ok {
            let later = layout_mutation::retained(control, r, created, opened, parent, target).1;
            assert(later[created.len() as int].target == target);
        }
    }
}

proof fn lemma_followed(
    plan: LayoutPlan,
    p: Seq<WorkerReply>,
    r: Seq<WorkerReply>,
    at: nat,
    index: nat,
    directory: WorkerDirectoryRef,
)
    requires
        continues(p, r),
        at <= p.len(),
        index <= plan.component_count,
    ensures
        ({
            let before = layout_mutation::followed(plan, p, at, index, directory);
            let after = layout_mutation::followed(plan, r, at, index, directory);
            &&& !(before is Ask) ==> after == before
            &&& !makes(before)
            &&& before matches WorkerStep::Next(prepared) ==> prepared.next <= p.len() && index
                <= prepared.next_component <= plan.component_count
        }),
    decreases plan.component_count - index,
{
    if index < plan.component_count && at + 2 <= p.len() {
        let opened = WorkerDirectoryRef::Opened { at: at as usize };
        lemma_followed(plan, p, r, at + 2, index + 1, opened);
    }
}

proof fn lemma_grown(
    plan: LayoutPlan,
    p: Seq<WorkerReply>,
    r: Seq<WorkerReply>,
    at: nat,
    index: nat,
    directory: WorkerDirectoryRef,
    disposition: WorkerDirectoryNodeDisposition,
    created: Seq<RetainedCreatedWorkerDirectory>,
)
    requires
        continues(p, r),
        at <= p.len(),
        plan.first_creatable <= index <= plan.component_count,
        all_in_layout(plan, created),
    ensures
        ({
            let (before, kept) = layout_mutation::grown(
                plan,
                p,
                at,
                index,
                directory,
                disposition,
                created,
            );
            let (after, later) = layout_mutation::grown(
                plan,
                r,
                at,
                index,
                directory,
                disposition,
                created,
            );
            &&& !(before is Ask) ==> (after, later) == (before, kept)
            &&& keeps(created, later)
            &&& all_in_layout(plan, kept)
            &&& before matches WorkerStep::Next(root) ==> root.next <= p.len()
            &&& makes(before) ==> in_layout(plan, made(before)) && (p.len() < r.len()
                && r[p.len() as int].result is Ok ==> accounts_for(
                later,
                p.len(),
                made(before),
            ))
        }),
    decreases plan.component_count - index,
{
    if index < plan.component_count {
        let is_root = index + 1 == plan.component_count;
        let target = WorkerTarget::Component { index: index as usize };
        assert(in_layout(plan, target));
        lemma_placed(plan.control, p, r, at, created, directory, target, is_root);
        lemma_placed(plan.control, r, r, at, created, directory, target, is_root);
        let (before, kept) = layout_mutation::placed(
            plan.control,
            p,
            at,
            created,
            directory,
            target,
            is_root,
        );
        let (after, later) = layout_mutation::placed(
            plan.control,
            r,
            at,
            created,
            directory,
            target,
            is_root,
        );
        assert(all_in_layout(plan, created));
        if let WorkerStep::Next(placed) = before {
            lemma_grown(
                plan,
                p,
                r,
                placed.next as nat,
                index + 1,
                placed.record.directory,
                placed.record.disposition,
                kept,
            );
        }
        if let WorkerStep::Next(placed) = after {
            lemma_grown(
                plan,
                r,
                r,
                placed.next as nat,
                index + 1,
                placed.record.directory,
                placed.record.disposition,
                later,
            );
            let end = layout_mutation::grown(
                plan,
                r,
                placed.next as nat,
                index + 1,
                placed.record.directory,
                placed.record.disposition,
                later,
            ).1;
            if makes(before) && p.len() < r.len() && r[p.len() as int].result is Ok {
                lemma_keeps_account(later, end, p.len(), target);
            }
        }
    }
}

proof fn lemma_looked(
    p: Seq<WorkerReply>,
    r: Seq<WorkerReply>,
    at: nat,
    root: WorkerDirectoryRef,
    ordinal: nat,
    found: Seq<Option<NodeRecord>>,
)
    requires
        continues(p, r),
        at <= p.len(),
        found.len() == ordinal <= CHILD_COUNT,
    ensures
        ({
            let before = layout_mutation::looked(p, at, root, ordinal, found);
            let after = layout_mutation::looked(r, at, root, ordinal, found);
            &&& !(before.0 is Ask) ==> after == before
            &&& !makes(before.0)
            &&& before.0 matches WorkerStep::Next(next) ==> next <= p.len() && before.1.len()
                == CHILD_COUNT
        }),
    decreases CHILD_COUNT - ordinal,
{
    if ordinal < CHILD_COUNT && at < p.len() {
        let target = WorkerTarget::Child { ordinal: ordinal as usize };
        let directory = WorkerDirectoryRef::Opened { at: at as usize };
        lemma_looked(p, r, at + 1, root, ordinal + 1, found.push(None));
        if let WorkerStep::Next(identity) = worker_ops::checked_existing(
            p,
            at + 1,
            directory,
            true,
        ) {
            lemma_looked(
                p,
                r,
                at + 3,
                root,
                ordinal + 1,
                found.push(
                    Some(
                        NodeRecord {
                            target,
                            directory,
                            disposition: WorkerDirectoryNodeDisposition::Existing,
                            identity,
                        },
                    ),
                ),
            );
        }
    }
}

proof fn lemma_filled(
    plan: LayoutPlan,
    p: Seq<WorkerReply>,
    r: Seq<WorkerReply>,
    at: nat,
    root: WorkerDirectoryRef,
    ordinal: nat,
    found: Seq<Option<NodeRecord>>,
    canonical: nat,
    created: Seq<RetainedCreatedWorkerDirectory>,
    children: Seq<NodeRecord>,
)
    requires
        continues(p, r),
        at <= p.len(),
        ordinal <= CHILD_COUNT,
        all_in_layout(plan, created),
    ensures
        ({
            let before = layout_mutation::filled(
                plan.control,
                p,
                at,
                root,
                ordinal,
                found,
                canonical,
                created,
                children,
            );
            let after = layout_mutation::filled(
                plan.control,
                r,
                at,
                root,
                ordinal,
                found,
                canonical,
                created,
                children,
            );
            &&& !(before.0 is Ask) ==> after == before
            &&& keeps(created, after.1)
            &&& all_in_layout(plan, before.1)
            &&& before.0 matches WorkerStep::Next(next) ==> next <= p.len()
            &&& makes(before.0) ==> in_layout(plan, made(before.0)) && (p.len() < r.len()
                && r[p.len() as int].result is Ok ==> accounts_for(
                after.1,
                p.len(),
                made(before.0),
            ))
        }),
    decreases CHILD_COUNT - ordinal,
{
    if ordinal < CHILD_COUNT {
        match found[ordinal as int] {
            Some(record) => {
                lemma_filled(
                    plan,
                    p,
                    r,
                    at,
                    root,
                    ordinal + 1,
                    found,
                    canonical,
                    created,
                    children.push(record),
                );
            },
            None => {
                let target = WorkerTarget::Child { ordinal: ordinal as usize };
                assert(in_layout(plan, target));
                lemma_placed(plan.control, p, r, at, created, root, target, true);
                lemma_placed(plan.control, r, r, at, created, root, target, true);
                let (before, kept) = layout_mutation::placed(
                    plan.control,
                    p,
                    at,
                    created,
                    root,
                    target,
                    true,
                );
                let (after, later) = layout_mutation::placed(
                    plan.control,
                    r,
                    at,
                    created,
                    root,
                    target,
                    true,
                );
                assert(all_in_layout(plan, created));
                if let WorkerStep::Next(placed) = before {
                    let count = if placed.record.disposition
                        == WorkerDirectoryNodeDisposition::Created {
                        canonical + 1
                    } else {
                        canonical
                    };
                    lemma_filled(
                        plan,
                        p,
                        r,
                        placed.next as nat,
                        root,
                        ordinal + 1,
                        found,
                        count,
                        kept,
                        children.push(placed.record),
                    );
                }
                if let WorkerStep::Next(placed) = after {
                    let count = if placed.record.disposition
                        == WorkerDirectoryNodeDisposition::Created {
                        canonical + 1
                    } else {
                        canonical
                    };
                    lemma_filled(
                        plan,
                        r,
                        r,
                        placed.next as nat,
                        root,
                        ordinal + 1,
                        found,
                        count,
                        later,
                        children.push(placed.record),
                    );
                    let end = layout_mutation::filled(
                        plan.control,
                        r,
                        placed.next as nat,
                        root,
                        ordinal + 1,
                        found,
                        count,
                        later,
                        children.push(placed.record),
                    ).1;
                    if makes(before) && p.len() < r.len() && r[p.len() as int].result is Ok {
                        lemma_keeps_account(later, end, p.len(), target);
                    }
                }
            },
        }
    }
}

proof fn lemma_children_confirmed(
    p: Seq<WorkerReply>,
    at: nat,
    root: WorkerDirectoryRef,
    ordinal: nat,
    children: Seq<NodeRecord>,
)
    ensures
        !makes(layout_mutation::children_confirmed(p, at, root, ordinal, children)),
    decreases CHILD_COUNT - ordinal,
{
    if ordinal < CHILD_COUNT {
        lemma_children_confirmed(p, at + 1, root, ordinal + 1, children);
    }
}

/// What was made by the end of a run.
pub open spec fn made_by(run: LayoutRun) -> Seq<RetainedCreatedWorkerDirectory> {
    match run {
        LayoutRun::Failed { failure, created } => created,
        LayoutRun::Complete { root, children, created } => created,
        LayoutRun::Ask { action } => seq![],
    }
}

/// The place that a run asks to make next.
pub open spec fn asks_to_make(run: LayoutRun, target: WorkerTarget) -> bool {
    run matches LayoutRun::Ask { action } && (action matches WorkerAction::Create {
        target: asked,
        ..
    } && asked == target)
}

proof fn lemma_furnished(
    plan: LayoutPlan,
    p: Seq<WorkerReply>,
    r: Seq<WorkerReply>,
    root: ReachedRoot,
    created: Seq<RetainedCreatedWorkerDirectory>,
    target: WorkerTarget,
)
    requires
        continues(p, r),
        root.next <= p.len(),
        all_in_layout(plan, created),
    ensures
        ({
            let before = layout_mutation::furnished(plan, p, root, created);
            let after = layout_mutation::furnished(plan, r, root, created);
            &&& all_in_layout(plan, made_by(before))
            &&& asks_to_make(before, target) ==> in_layout(plan, target) && (p.len() < r.len()
                && r[p.len() as int].result is Ok && !(after is Ask) ==> accounts_for(
                made_by(after),
                p.len(),
                target,
            ))
            &&& !(after is Ask) ==> keeps(created, made_by(after))
        }),
{
    let empty = Seq::<Option<NodeRecord>>::empty();
    let nobody = Seq::<NodeRecord>::empty();
    let at = (root.next + 1) as nat;
    let canonical: nat = if root.disposition == WorkerDirectoryNodeDisposition::Created {
        1
    } else {
        0
    };
    if root.next < p.len() {
        lemma_looked(p, r, at, root.directory, 0, empty);
        let (look, found) = layout_mutation::looked(p, at, root.directory, 0, empty);
        if let WorkerStep::Next(next) = look {
            lemma_filled(
                plan,
                p,
                r,
                next as nat,
                root.directory,
                0,
                found,
                canonical,
                created,
                nobody,
            );
            let (fill, kept, children) = layout_mutation::filled(
                plan.control,
                p,
                next as nat,
                root.directory,
                0,
                found,
                canonical,
                created,
                nobody,
            );
            if let WorkerStep::Next(last) = fill {
                lemma_children_confirmed(p, (last + 2) as nat, root.directory, 0, children);
            }
        }
    }
    if root.next < r.len() {
        lemma_looked(r, r, at, root.directory, 0, empty);
        let (look, found) = layout_mutation::looked(r, at, root.directory, 0, empty);
        if let WorkerStep::Next(next) = look {
            lemma_filled(
                plan,
                r,
                r,
                next as nat,
                root.directory,
                0,
                found,
                canonical,
                created,
                nobody,
            );
        }
    }
}

proof fn lemma_layout(
    plan: LayoutPlan,
    p: Seq<WorkerReply>,
    r: Seq<WorkerReply>,
    target: WorkerTarget,
)
    requires
        plan.well_formed(),
        continues(p, r),
    ensures
        ({
            let before = layout_mutation::layout_run(plan, p);
            let after = layout_mutation::layout_run(plan, r);
            &&& all_in_layout(plan, made_by(before))
            &&& asks_to_make(before, target) ==> in_layout(plan, target) && (p.len() < r.len()
                && r[p.len() as int].result is Ok && !(after is Ask) ==> accounts_for(
                made_by(after),
                p.len(),
                target,
            ))
        }),
{
    let nothing = Seq::<RetainedCreatedWorkerDirectory>::empty();
    let first = plan.first_creatable as nat;
    let anchor = WorkerDirectoryRef::Anchor;
    let existing = WorkerDirectoryNodeDisposition::Existing;
    lemma_followed(plan, p, r, 0, first, anchor);
    if let WorkerStep::Next(prepared) = layout_mutation::followed(plan, p, 0, first, anchor) {
        let at = prepared.next as nat;
        let index = prepared.next_component as nat;
        lemma_grown(plan, p, r, at, index, prepared.directory, existing, nothing);
        lemma_grown(plan, r, r, at, index, prepared.directory, existing, nothing);
        let (before, kept) = layout_mutation::grown(
            plan,
            p,
            at,
            index,
            prepared.directory,
            existing,
            nothing,
        );
        let (after, later) = layout_mutation::grown(
            plan,
            r,
            at,
            index,
            prepared.directory,
            existing,
            nothing,
        );
        if let WorkerStep::Next(root) = before {
            lemma_furnished(plan, p, r, root, kept, target);
        }
        if let WorkerStep::Next(root) = after {
            lemma_furnished(plan, r, r, root, later, target);
            let end = layout_mutation::furnished(plan, r, root, later);
            if makes(before) && made(before) == target && p.len() < r.len() && r[p.len() as int]
                .result is Ok && !(end is Ask) {
                lemma_keeps_account(later, made_by(end), p.len(), target);
            }
        }
    }
}

/// Nothing but a place of the layout is ever made, and nothing else is accounted
/// for.
pub proof fn only_layout_places_are_made(
    plan: LayoutPlan,
    replies: Seq<WorkerReply>,
    target: WorkerTarget,
)
    requires
        plan.well_formed(),
        replies.len() <= usize::MAX,
    ensures
        asks_to_make(layout_mutation::layout_run(plan, replies), target) ==> in_layout(
            plan,
            target,
        ),
        all_in_layout(plan, made_by(layout_mutation::layout_run(plan, replies))),
{
    lemma_layout(plan, replies, replies, target);
}

/// Whatever was made is accounted for in the end, however that comes about: if
/// making a place was asked for after `earlier` and succeeded, then every run
/// that goes on from there and ends has that directory among what was made.
pub proof fn whatever_was_made_is_accounted_for(
    plan: LayoutPlan,
    earlier: Seq<WorkerReply>,
    later: Seq<WorkerReply>,
    target: WorkerTarget,
)
    requires
        plan.well_formed(),
        continues(earlier, later),
        asks_to_make(layout_mutation::layout_run(plan, earlier), target),
        earlier.len() < later.len(),
        later[earlier.len() as int].result is Ok,
        !(layout_mutation::layout_run(plan, later) is Ask),
    ensures
        accounts_for(
            made_by(layout_mutation::layout_run(plan, later)),
            earlier.len(),
            target,
        ),
{
    lemma_layout(plan, earlier, later, target);
}

/// The identity of everything that was made is known.
pub open spec fn all_resolved(created: Seq<RetainedCreatedWorkerDirectory>) -> bool {
    forall|i: int| 0 <= i < created.len() ==> (#[trigger] created[i]).identity is Some
}

/// A directory of the layout that was made is among what was made, with its
/// identity.
pub open spec fn accounted(
    created: Seq<RetainedCreatedWorkerDirectory>,
    record: NodeRecord,
) -> bool {
    record.disposition == WorkerDirectoryNodeDisposition::Created ==> exists|i: int|
        0 <= i < created.len() && (#[trigger] created[i]).target == record.target
            && created[i].directory == record.directory && created[i].identity == Some(
            record.identity,
        )
}

proof fn lemma_keeps_accounted(
    earlier: Seq<RetainedCreatedWorkerDirectory>,
    later: Seq<RetainedCreatedWorkerDirectory>,
    record: NodeRecord,
)
    requires
        keeps(earlier, later),
        accounted(earlier, record),
    ensures
        accounted(later, record),
{
    if record.disposition == WorkerDirectoryNodeDisposition::Created {
        let i = choose|i: int|
            0 <= i < earlier.len() && (#[trigger] earlier[i]).target == record.target
                && earlier[i].directory == record.directory && earlier[i].identity == Some(
                record.identity,
            );
        assert(later[i] == earlier[i]);
    }
}

proof fn lemma_placed_resolved(
    control: WorkerMutationControl,
    r: Seq<WorkerReply>,
    at: nat,
    created: Seq<RetainedCreatedWorkerDirectory>,
    parent: WorkerDirectoryRef,
    target: WorkerTarget,
    canonical: bool,
)
    requires
        all_resolved(created),
    ensures
        ({
            let (step, kept) = layout_mutation::placed(
                control,
                r,
                at,
                created,
                parent,
                target,
                canonical,
            );
            step matches WorkerStep::Next(placed) ==> {
                &&& all_resolved(kept)
                &&& accounted(kept, placed.record)
                &&& placed.record.target == target
            }
        }),
{
    let (step, kept) = layout_mutation::placed(
        control,
        r,
        at,
        created,
        parent,
        target,
        canonical,
    );
    if let WorkerStep::Next(placed) = step {
        if placed.record.disposition == WorkerDirectoryNodeDisposition::Created {
            assert(kept[created.len() as int].target == target);
        }
    }
}

proof fn lemma_grown_resolved(
    plan: LayoutPlan,
    r: Seq<WorkerReply>,
    at: nat,
    index: nat,
    directory: WorkerDirectoryRef,
    disposition: WorkerDirectoryNodeDisposition,
    created: Seq<RetainedCreatedWorkerDirectory>,
)
    requires
        all_resolved(created),
    ensures
        ({
            let (step, kept) = layout_mutation::grown(
                plan,
                r,
                at,
                index,
                directory,
                disposition,
                created,
            );
            step is Next ==> all_resolved(kept)
        }),
    decreases plan.component_count - index,
{
    if index < plan.component_count {
        let is_root = index + 1 == plan.component_count;
        let target = WorkerTarget::Component { index: index as usize };
        lemma_placed_resolved(plan.control, r, at, created, directory, target, is_root);
        let (step, kept) = layout_mutation::placed(
            plan.control,
            r,
            at,
            created,
            directory,
            target,
            is_root,
        );
        if let WorkerStep::Next(placed) = step {
            lemma_grown_resolved(
                plan,
                r,
                placed.next as nat,
                index + 1,
                placed.record.directory,
                placed.record.disposition,
                kept,
            );
        }
    }
}

/// Every directory that was found stands where it was looked for.
spec fn in_place(found: Seq<Option<NodeRecord>>) -> bool {
    forall|i: int|
        0 <= i < found.len() ==> ((#[trigger] found[i]) matches Some(record) ==> record.target == (
        WorkerTarget::Child { ordinal: i as usize }) && record.disposition
            == WorkerDirectoryNodeDisposition::Existing)
}

proof fn lemma_looked_in_place(
    r: Seq<WorkerReply>,
    at: nat,
    root: WorkerDirectoryRef,
    ordinal: nat,
    found: Seq<Option<NodeRecord>>,
)
    requires
        found.len() == ordinal <= CHILD_COUNT,
        in_place(found),
    ensures
        in_place(layout_mutation::looked(r, at, root, ordinal, found).1),
    decreases CHILD_COUNT - ordinal,
{
    if ordinal < CHILD_COUNT {
        let target = WorkerTarget::Child { ordinal: ordinal as usize };
        let directory = WorkerDirectoryRef::Opened { at: at as usize };
        lemma_looked_in_place(r, at + 1, root, ordinal + 1, found.push(None));
        if let WorkerStep::Next(identity) = worker_ops::checked_existing(
            r,
            at + 1,
            directory,
            true,
        ) {
            let record = NodeRecord {
                target,
                directory,
                disposition: WorkerDirectoryNodeDisposition::Existing,
                identity,
            };
            lemma_looked_in_place(r, at + 3, root, ordinal + 1, found.push(Some(record)));
        }
    }
}

/// The directories in the root, as far as they are listed, are in their places,
/// and those that were made are accounted for.
spec fn listed(
    created: Seq<RetainedCreatedWorkerDirectory>,
    children: Seq<NodeRecord>,
) -> bool {
    forall|i: int|
        0 <= i < children.len() ==> (#[trigger] children[i]).target == (WorkerTarget::Child {
            ordinal: i as usize,
        }) && accounted(created, children[i])
}

proof fn lemma_filled_listed(
    plan: LayoutPlan,
    r: Seq<WorkerReply>,
    at: nat,
    root: WorkerDirectoryRef,
    ordinal: nat,
    found: Seq<Option<NodeRecord>>,
    canonical: nat,
    created: Seq<RetainedCreatedWorkerDirectory>,
    children: Seq<NodeRecord>,
)
    requires
        r.len() <= usize::MAX,
        at <= r.len(),
        found.len() == CHILD_COUNT,
        in_place(found),
        children.len() == ordinal <= CHILD_COUNT,
        all_resolved(created),
        listed(created, children),
    ensures
        ({
            let (step, kept, all) = layout_mutation::filled(
                plan.control,
                r,
                at,
                root,
                ordinal,
                found,
                canonical,
                created,
                children,
            );
            step is Next ==> all_resolved(kept) && all.len() == CHILD_COUNT && listed(kept, all)
        }),
    decreases CHILD_COUNT - ordinal,
{
    if ordinal < CHILD_COUNT {
        match found[ordinal as int] {
            Some(record) => {
                lemma_filled_listed(
                    plan,
                    r,
                    at,
                    root,
                    ordinal + 1,
                    found,
                    canonical,
                    created,
                    children.push(record),
                );
            },
            None => {
                let target = WorkerTarget::Child { ordinal: ordinal as usize };
                lemma_placed(plan.control, r, r, at, created, root, target, true);
                lemma_placed_resolved(plan.control, r, at, created, root, target, true);
                let (step, kept) = layout_mutation::placed(
                    plan.control,
                    r,
                    at,
                    created,
                    root,
                    target,
                    true,
                );
                if let WorkerStep::Next(placed) = step {
                    let count = if placed.record.disposition
                        == WorkerDirectoryNodeDisposition::Created {
                        canonical + 1
                    } else {
                        canonical
                    };
                    let more = children.push(placed.record);
                    assert forall|i: int| 0 <= i < more.len() implies (#[trigger] more[i]).target
                        == (WorkerTarget::Child { ordinal: i as usize }) && accounted(
                        kept,
                        more[i],
                    ) by {
                        if i < children.len() {
                            assert(more[i] == children[i]);
                            lemma_keeps_accounted(created, kept, children[i]);
                        }
                    }
                    lemma_filled_listed(
                        plan,
                        r,
                        placed.next as nat,
                        root,
                        ordinal + 1,
                        found,
                        count,
                        kept,
                        more,
                    );
                }
            },
        }
    }
}

/// A layout that was made completely consists of the root and the five
/// directories in it, in their order; the identity of everything that was made
/// is known, and each of the five that was made is accounted for with it.
pub proof fn complete_layouts_are_resolved(plan: LayoutPlan, replies: Seq<WorkerReply>)
    requires
        plan.well_formed(),
        replies.len() <= usize::MAX,
    ensures
        layout_mutation::layout_run(plan, replies) matches LayoutRun::Complete {
            root,
            children,
            created,
        } ==> {
            &&& root.target == layout_mutation::root_target(plan)
            &&& children.len() == CHILD_COUNT
            &&& forall|i: int|
                0 <= i < CHILD_COUNT ==> (#[trigger] children[i]).target == (WorkerTarget::Child {
                    ordinal: i as usize,
                }) && accounted(created, children[i])
            &&& all_resolved(created)
        },
{
    let nothing = Seq::<RetainedCreatedWorkerDirectory>::empty();
    let empty = Seq::<Option<NodeRecord>>::empty();
    let nobody = Seq::<NodeRecord>::empty();
    let first = plan.first_creatable as nat;
    let anchor = WorkerDirectoryRef::Anchor;
    let existing = WorkerDirectoryNodeDisposition::Existing;
    lemma_followed(plan, replies, replies, 0, first, anchor);
    if let WorkerStep::Next(prepared) = layout_mutation::followed(plan, replies, 0, first, anchor) {
        let at = prepared.next as nat;
        let index = prepared.next_component as nat;
        lemma_grown(plan, replies, replies, at, index, prepared.directory, existing, nothing);
        lemma_grown_resolved(plan, replies, at, index, prepared.directory, existing, nothing);
        let (reached, created) = layout_mutation::grown(
            plan,
            replies,
            at,
            index,
            prepared.directory,
            existing,
            nothing,
        );
        if let WorkerStep::Next(root) = reached {
            if root.next < replies.len() {
                let next = (root.next + 1) as nat;
                lemma_looked(replies, replies, next, root.directory, 0, empty);
                lemma_looked_in_place(replies, next, root.directory, 0, empty);
                let (look, found) = layout_mutation::looked(
                    replies,
                    next,
                    root.directory,
                    0,
                    empty,
                );
                let canonical: nat = if root.disposition
                    == WorkerDirectoryNodeDisposition::Created {
                    1
                } else {
                    0
                };
                if let WorkerStep::Next(at) = look {
                    lemma_filled_listed(
                        plan,
                        replies,
                        at as nat,
                        root.directory,
                        0,
                        found,
                        canonical,
                        created,
                        nobody,
                    );
                }
            }
        }
    }
}

} // verus!
