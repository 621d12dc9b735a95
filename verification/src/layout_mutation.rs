//! Making a worker's layout: what is missing of the path to its root, the root
//! and the five directories in it, so that whatever was made is accounted for.

use crate::error;
use crate::error::{permission_denied, PlatformError};
use crate::worker_ops;
use crate::worker_ops::{
    ask, missing, open_or_create_worker_directory_at, reverify_retained_created_worker_directory,
    OpenOrCreated, RetainedCreatedWorkerDirectory, WorkerAction, WorkerDirectoryIdentity,
    WorkerDirectoryNodeDisposition, WorkerDirectoryRef, WorkerMutationControl, WorkerReply,
    WorkerStep, WorkerTarget, REVERIFY_OPERATIONS,
};
use vstd::prelude::*;

verus! {

/// The number of directories in a root.
pub const CHILD_COUNT: usize = 5;

/// What is to be made: how many components the root's path has, from which of
/// them on they may be made, and whether others may make entries where the first
/// of them is made.
#[derive(Clone, Copy, Debug, PartialEq, Eq, Structural)]
pub struct LayoutPlan {
    pub component_count: usize,
    pub first_creatable: usize,
    pub allow_untrusted_parent_create: bool,
    pub control: WorkerMutationControl,
}

impl LayoutPlan {
    /// At least the root itself may be made.
    pub open spec fn well_formed(self) -> bool {
        self.first_creatable < self.component_count
    }
}

/// A directory of the layout: its place, which open directory it is, whether it
/// was made, and which directory it is.
#[derive(Clone, Copy, Debug)]
pub struct NodeRecord {
    pub target: WorkerTarget,
    pub directory: WorkerDirectoryRef,
    pub disposition: WorkerDirectoryNodeDisposition,
    pub identity: WorkerDirectoryIdentity,
}

/// A directory that was placed, and the number of the next operation.
#[derive(Clone, Copy, Debug)]
pub struct Placed {
    pub record: NodeRecord,
    pub next: usize,
}

// ---------------------------------------------------------------------------
// Placing one directory
// ---------------------------------------------------------------------------

/// What is kept of a directory that was opened or made. One that was made is
/// accounted for before anything else is asked about it.
pub open spec fn retained(
    control: WorkerMutationControl,
    replies: Seq<WorkerReply>,
    created: Seq<RetainedCreatedWorkerDirectory>,
    opened: OpenOrCreated,
    parent: WorkerDirectoryRef,
    target: WorkerTarget,
) -> (WorkerStep<Placed>, Seq<RetainedCreatedWorkerDirectory>) {
    let directory = opened.directory;
    match opened.existing {
        Some(identity) => (
            WorkerStep::Next(
                Placed {
                    record: NodeRecord {
                        target,
                        directory,
                        disposition: WorkerDirectoryNodeDisposition::Existing,
                        identity,
                    },
                    next: opened.next,
                },
            ),
            created,
        ),
        None => {
            let unresolved = RetainedCreatedWorkerDirectory {
                target,
                parent,
                directory,
                identity: None,
            };
            let kept = created.push(unresolved);
            match worker_ops::native_injection(control, kept.len()) {
                Some(failure) => (WorkerStep::Fail(failure), kept),
                None => match worker_ops::reverified(replies, opened.next as nat, unresolved) {
                    WorkerStep::Ask(action) => (WorkerStep::Ask(action), kept),
                    WorkerStep::Fail(failure) => (WorkerStep::Fail(failure), kept),
                    WorkerStep::Next(identity) => (
                        WorkerStep::Next(
                            Placed {
                                record: NodeRecord {
                                    target,
                                    directory,
                                    disposition: WorkerDirectoryNodeDisposition::Created,
                                    identity,
                                },
                                next: (opened.next + REVERIFY_OPERATIONS) as usize,
                            },
                        ),
                        created.push(
                            RetainedCreatedWorkerDirectory {
                                target,
                                parent,
                                directory,
                                identity: Some(identity),
                            },
                        ),
                    ),
                },
            }
        },
    }
}

/// The directories that were made, in the order in which they were.
#[derive(Debug)]
pub struct CreatedWorkerDirectoryEvidence {
    pub created: Vec<RetainedCreatedWorkerDirectory>,
}

impl CreatedWorkerDirectoryEvidence {
    /// Nothing was made yet.
    pub fn new() -> (evidence: Self)
        ensures
            evidence.created@ == Seq::<RetainedCreatedWorkerDirectory>::empty(),
    {
        CreatedWorkerDirectoryEvidence { created: Vec::new() }
    }

    /// Keeps what was opened or made.
    pub fn retain_for_continuation(
        &mut self,
        opened: OpenOrCreated,
        parent: WorkerDirectoryRef,
        target: WorkerTarget,
        control: WorkerMutationControl,
        replies: &[WorkerReply],
    ) -> (step: WorkerStep<Placed>)
        requires
            opened.next <= replies@.len(),
        ensures
            (step, final(self).created@) == retained(
                control,
                replies@,
                old(self).created@,
                opened,
                parent,
                target,
            ),
            step matches WorkerStep::Next(placed) ==> opened.next <= placed.next <= replies@.len(),
    {
        let directory = opened.directory;
        match opened.existing {
            Some(identity) => {
                return WorkerStep::Next(
                    Placed {
                        record: NodeRecord {
                            target,
                            directory,
                            disposition: WorkerDirectoryNodeDisposition::Existing,
                            identity,
                        },
                        next: opened.next,
                    },
                );
            },
            None => {},
        }
        let unresolved = RetainedCreatedWorkerDirectory {
            target,
            parent,
            directory,
            identity: None,
        };
        let ghost before = self.created@;
        self.created.push(unresolved);
        match control.fail_after_native_create_if_requested(self.created.len()) {
            Ok(()) => {},
            Err(failure) => {
                return WorkerStep::Fail(failure);
            },
        }
        match reverify_retained_created_worker_directory(replies, opened.next, &unresolved) {
            WorkerStep::Ask(action) => WorkerStep::Ask(action),
            WorkerStep::Fail(failure) => WorkerStep::Fail(failure),
            WorkerStep::Next(identity) => {
                let _ = self.created.pop();
                assert(self.created@ =~= before);
                self.created.push(
                    RetainedCreatedWorkerDirectory {
                        target,
                        parent,
                        directory,
                        identity: Some(identity),
                    },
                );
                WorkerStep::Next(
                    Placed {
                        record: NodeRecord {
                            target,
                            directory,
                            disposition: WorkerDirectoryNodeDisposition::Created,
                            identity,
                        },
                        next: opened.next + REVERIFY_OPERATIONS,
                    },
                )
            },
        }
    }
}

/// Opening or making one directory, and keeping it.
pub open spec fn placed(
    control: WorkerMutationControl,
    replies: Seq<WorkerReply>,
    at: nat,
    created: Seq<RetainedCreatedWorkerDirectory>,
    parent: WorkerDirectoryRef,
    target: WorkerTarget,
    canonical: bool,
) -> (WorkerStep<Placed>, Seq<RetainedCreatedWorkerDirectory>) {
    match worker_ops::opened_or_created(replies, at, parent, target, canonical) {
        WorkerStep::Ask(action) => (WorkerStep::Ask(action), created),
        WorkerStep::Fail(failure) => (WorkerStep::Fail(failure), created),
        WorkerStep::Next(opened) => retained(control, replies, created, opened, parent, target),
    }
}

/// Opens or makes one directory, and keeps it.
pub fn place_worker_directory(
    control: WorkerMutationControl,
    replies: &[WorkerReply],
    at: usize,
    evidence: &mut CreatedWorkerDirectoryEvidence,
    parent: WorkerDirectoryRef,
    target: WorkerTarget,
    canonical: bool,
) -> (step: WorkerStep<Placed>)
    ensures
        (step, final(evidence).created@) == placed(
            control,
            replies@,
            at as nat,
            old(evidence).created@,
            parent,
            target,
            canonical,
        ),
        step matches WorkerStep::Next(placed) ==> at < placed.next <= replies@.len(),
{
    match open_or_create_worker_directory_at(replies, at, parent, target, canonical) {
        WorkerStep::Ask(action) => WorkerStep::Ask(action),
        WorkerStep::Fail(failure) => WorkerStep::Fail(failure),
        WorkerStep::Next(opened) => evidence.retain_for_continuation(
            opened,
            parent,
            target,
            control,
            replies,
        ),
    }
}

// ---------------------------------------------------------------------------
// The way to the root
// ---------------------------------------------------------------------------

/// How far the path to the root is there: the last directory of it, the first
/// component that is missing, and the number of the next operation.
#[derive(Clone, Copy, Debug)]
pub struct PreparedWorkerRoot {
    pub directory: WorkerDirectoryRef,
    pub next_component: usize,
    pub next: usize,
}

/// Following the path to the root as far as it is there. Directories above the
/// root must be trusted, the root must have a worker's rules, and the directory
/// in which the first missing one is to be made must be trusted for that.
pub open spec fn followed(
    plan: LayoutPlan,
    replies: Seq<WorkerReply>,
    at: nat,
    index: nat,
    directory: WorkerDirectoryRef,
) -> WorkerStep<PreparedWorkerRoot>
    decreases plan.component_count - index,
{
    if index >= plan.component_count {
        WorkerStep::Next(
            PreparedWorkerRoot {
                directory,
                next_component: plan.component_count,
                next: at as usize,
            },
        )
    } else {
        let target = WorkerTarget::Component { index: index as usize };
        match worker_ops::asked(
            replies,
            at,
            WorkerAction::Open { parent: directory, target },
        ) {
            WorkerStep::Ask(action) => WorkerStep::Ask(action),
            WorkerStep::Next(_) => {
                let opened = WorkerDirectoryRef::Opened { at: at as usize };
                match worker_ops::asked(
                    replies,
                    at + 1,
                    worker_ops::existing_check(opened, index + 1 == plan.component_count),
                ) {
                    WorkerStep::Ask(action) => WorkerStep::Ask(action),
                    WorkerStep::Fail(failure) => WorkerStep::Fail(failure),
                    WorkerStep::Next(_) => followed(plan, replies, at + 2, index + 1, opened),
                }
            },
            WorkerStep::Fail(failure) => if !worker_ops::is_missing(failure) {
                WorkerStep::Fail(failure)
            } else {
                match worker_ops::asked(
                    replies,
                    at + 1,
                    WorkerAction::VerifyAncestor {
                        directory,
                        allow_create: plan.allow_untrusted_parent_create,
                    },
                ) {
                    WorkerStep::Ask(action) => WorkerStep::Ask(action),
                    WorkerStep::Fail(failure) => WorkerStep::Fail(failure),
                    WorkerStep::Next(_) => WorkerStep::Next(
                        PreparedWorkerRoot {
                            directory,
                            next_component: index as usize,
                            next: (at + 2) as usize,
                        },
                    ),
                }
            },
        }
    }
}

/// Follows the path to the root as far as it is there.
pub fn prepare_worker_root_from_anchor(plan: &LayoutPlan, replies: &[WorkerReply]) -> (step:
    WorkerStep<PreparedWorkerRoot>)
    requires
        plan.well_formed(),
    ensures
        step == followed(
            *plan,
            replies@,
            0,
            plan.first_creatable as nat,
            WorkerDirectoryRef::Anchor,
        ),
        step matches WorkerStep::Next(prepared) ==> plan.first_creatable <= prepared.next_component
            <= plan.component_count && prepared.next <= replies@.len(),
{
    let mut at: usize = 0;
    let mut directory = WorkerDirectoryRef::Anchor;
    let mut index: usize = plan.first_creatable;
    let ghost whole = followed(
        *plan,
        replies@,
        0,
        plan.first_creatable as nat,
        WorkerDirectoryRef::Anchor,
    );
    while index < plan.component_count
        invariant
            plan.first_creatable <= index <= plan.component_count,
            at <= replies@.len(),
            whole == followed(*plan, replies@, at as nat, index as nat, directory),
            whole == followed(
                *plan,
                replies@,
                0,
                plan.first_creatable as nat,
                WorkerDirectoryRef::Anchor,
            ),
        decreases plan.component_count - index,
    {
        let target = WorkerTarget::Component { index };
        match ask(replies, at, WorkerAction::Open { parent: directory, target }) {
            WorkerStep::Ask(action) => {
                return WorkerStep::Ask(action);
            },
            WorkerStep::Next(_) => {
                let opened = WorkerDirectoryRef::Opened { at };
                let check = if index + 1 == plan.component_count {
                    WorkerAction::VerifyCanonical { directory: opened }
                } else {
                    WorkerAction::VerifyAncestor { directory: opened, allow_create: false }
                };
                match ask(replies, at + 1, check) {
                    WorkerStep::Ask(action) => {
                        return WorkerStep::Ask(action);
                    },
                    WorkerStep::Fail(failure) => {
                        return WorkerStep::Fail(failure);
                    },
                    WorkerStep::Next(_) => {},
                }
                directory = opened;
                at = at + 2;
                index = index + 1;
            },
            WorkerStep::Fail(failure) => {
                if !missing(&failure) {
                    return WorkerStep::Fail(failure);
                }
                let check = WorkerAction::VerifyAncestor {
                    directory,
                    allow_create: plan.allow_untrusted_parent_create,
                };
                return match ask(replies, at + 1, check) {
                    WorkerStep::Ask(action) => WorkerStep::Ask(action),
                    WorkerStep::Fail(failure) => WorkerStep::Fail(failure),
                    WorkerStep::Next(_) => WorkerStep::Next(
                        PreparedWorkerRoot { directory, next_component: index, next: at + 2 },
                    ),
                };
            },
        }
    }
    WorkerStep::Next(
        PreparedWorkerRoot { directory, next_component: plan.component_count, next: at },
    )
}

/// The root: which open directory it is, whether it was made, and the number of
/// the next operation.
#[derive(Clone, Copy, Debug)]
pub struct ReachedRoot {
    pub directory: WorkerDirectoryRef,
    pub disposition: WorkerDirectoryNodeDisposition,
    pub next: usize,
}

/// Making what is missing of the path to the root, from component `index` on.
pub open spec fn grown(
    plan: LayoutPlan,
    replies: Seq<WorkerReply>,
    at: nat,
    index: nat,
    directory: WorkerDirectoryRef,
    disposition: WorkerDirectoryNodeDisposition,
    created: Seq<RetainedCreatedWorkerDirectory>,
) -> (WorkerStep<ReachedRoot>, Seq<RetainedCreatedWorkerDirectory>)
    decreases plan.component_count - index,
{
    if index >= plan.component_count {
        (WorkerStep::Next(ReachedRoot { directory, disposition, next: at as usize }), created)
    } else {
        let is_root = index + 1 == plan.component_count;
        match placed(
            plan.control,
            replies,
            at,
            created,
            directory,
            WorkerTarget::Component { index: index as usize },
            is_root,
        ) {
            (WorkerStep::Ask(action), kept) => (WorkerStep::Ask(action), kept),
            (WorkerStep::Fail(failure), kept) => (WorkerStep::Fail(failure), kept),
            (WorkerStep::Next(placed), kept) => if is_root && placed.record.disposition
                == WorkerDirectoryNodeDisposition::Created && worker_ops::canonical_injection(
                plan.control,
                1,
            ) is Some {
                (WorkerStep::Fail(worker_ops::canonical_injection(plan.control, 1)->0), kept)
            } else {
                grown(
                    plan,
                    replies,
                    placed.next as nat,
                    index + 1,
                    placed.record.directory,
                    placed.record.disposition,
                    kept,
                )
            },
        }
    }
}

fn grow_worker_root(
    plan: &LayoutPlan,
    replies: &[WorkerReply],
    prepared: PreparedWorkerRoot,
    evidence: &mut CreatedWorkerDirectoryEvidence,
) -> (step: WorkerStep<ReachedRoot>)
    requires
        prepared.next_component <= plan.component_count,
        prepared.next <= replies@.len(),
    ensures
        (step, final(evidence).created@) == grown(
            *plan,
            replies@,
            prepared.next as nat,
            prepared.next_component as nat,
            prepared.directory,
            WorkerDirectoryNodeDisposition::Existing,
            old(evidence).created@,
        ),
        step matches WorkerStep::Next(root) ==> root.next <= replies@.len(),
{
    let mut at: usize = prepared.next;
    let mut directory = prepared.directory;
    let mut disposition = WorkerDirectoryNodeDisposition::Existing;
    let mut index: usize = prepared.next_component;
    let ghost whole = grown(
        *plan,
        replies@,
        prepared.next as nat,
        prepared.next_component as nat,
        prepared.directory,
        WorkerDirectoryNodeDisposition::Existing,
        old(evidence).created@,
    );
    while index < plan.component_count
        invariant
            index <= plan.component_count,
            at <= replies@.len(),
            whole == grown(
                *plan,
                replies@,
                at as nat,
                index as nat,
                directory,
                disposition,
                evidence.created@,
            ),
            whole == grown(
                *plan,
                replies@,
                prepared.next as nat,
                prepared.next_component as nat,
                prepared.directory,
                WorkerDirectoryNodeDisposition::Existing,
                old(evidence).created@,
            ),
        decreases plan.component_count - index,
    {
        let is_root = index + 1 == plan.component_count;
        let placed = match place_worker_directory(
            plan.control,
            replies,
            at,
            evidence,
            directory,
            WorkerTarget::Component { index },
            is_root,
        ) {
            WorkerStep::Ask(action) => {
                return WorkerStep::Ask(action);
            },
            WorkerStep::Fail(failure) => {
                return WorkerStep::Fail(failure);
            },
            WorkerStep::Next(placed) => placed,
        };
        if is_root && placed.record.disposition == WorkerDirectoryNodeDisposition::Created {
            match plan.control.fail_if_requested(1) {
                Ok(()) => {},
                Err(failure) => {
                    return WorkerStep::Fail(failure);
                },
            }
        }
        at = placed.next;
        directory = placed.record.directory;
        disposition = placed.record.disposition;
        index = index + 1;
    }
    WorkerStep::Next(ReachedRoot { directory, disposition, next: at })
}

// ---------------------------------------------------------------------------
// The directories in the root
// ---------------------------------------------------------------------------

/// Looking which of the directories in the root are there, from `ordinal` on.
/// Those that are must have a worker's rules.
pub open spec fn looked(
    replies: Seq<WorkerReply>,
    at: nat,
    root: WorkerDirectoryRef,
    ordinal: nat,
    found: Seq<Option<NodeRecord>>,
) -> (WorkerStep<usize>, Seq<Option<NodeRecord>>)
    decreases CHILD_COUNT - ordinal,
{
    if ordinal >= CHILD_COUNT {
        (WorkerStep::Next(at as usize), found)
    } else {
        let target = WorkerTarget::Child { ordinal: ordinal as usize };
        match worker_ops::asked(replies, at, WorkerAction::Open { parent: root, target }) {
            WorkerStep::Ask(action) => (WorkerStep::Ask(action), found),
            WorkerStep::Fail(failure) => if worker_ops::is_missing(failure) {
                looked(replies, at + 1, root, ordinal + 1, found.push(None))
            } else {
                (WorkerStep::Fail(failure), found)
            },
            WorkerStep::Next(_) => {
                let directory = WorkerDirectoryRef::Opened { at: at as usize };
                match worker_ops::checked_existing(replies, at + 1, directory, true) {
                    WorkerStep::Ask(action) => (WorkerStep::Ask(action), found),
                    WorkerStep::Fail(failure) => (WorkerStep::Fail(failure), found),
                    WorkerStep::Next(identity) => looked(
                        replies,
                        at + 3,
                        root,
                        ordinal + 1,
                        found.push(
                            Some(
                                NodeRecord {
                                    target,
                                    directory,
                                    disposition: WorkerDirectoryNodeDisposition::Existing,
                                    identity,
                                },
                            ),
                        ),
                    ),
                }
            },
        }
    }
}

fn look_for_children(
    replies: &[WorkerReply],
    at: usize,
    root: WorkerDirectoryRef,
    found: &mut Vec<Option<NodeRecord>>,
) -> (step: WorkerStep<usize>)
    requires
        at <= replies@.len(),
        old(found)@.len() == 0,
    ensures
        (step, final(found)@) == looked(
            replies@,
            at as nat,
            root,
            0,
            Seq::<Option<NodeRecord>>::empty(),
        ),
        step matches WorkerStep::Next(next) ==> next <= replies@.len() && final(found)@.len()
            == CHILD_COUNT,
{
    let ghost whole = looked(replies@, at as nat, root, 0, Seq::<Option<NodeRecord>>::empty());
    let mut next: usize = at;
    let mut ordinal: usize = 0;
    assert(found@ =~= Seq::<Option<NodeRecord>>::empty());
    while ordinal < CHILD_COUNT
        invariant
            ordinal <= CHILD_COUNT,
            next <= replies@.len(),
            found@.len() == ordinal,
            whole == looked(replies@, next as nat, root, ordinal as nat, found@),
            whole == looked(replies@, at as nat, root, 0, Seq::<Option<NodeRecord>>::empty()),
        decreases CHILD_COUNT - ordinal,
    {
        let target = WorkerTarget::Child { ordinal };
        match ask(replies, next, WorkerAction::Open { parent: root, target }) {
            WorkerStep::Ask(action) => {
                return WorkerStep::Ask(action);
            },
            WorkerStep::Fail(failure) => {
                if !missing(&failure) {
                    return WorkerStep::Fail(failure);
                }
                found.push(None);
                next = next + 1;
            },
            WorkerStep::Next(_) => {
                let directory = WorkerDirectoryRef::Opened { at: next };
                match worker_ops::verify_existing_worker_directory(
                    replies,
                    next + 1,
                    directory,
                    true,
                ) {
                    WorkerStep::Ask(action) => {
                        return WorkerStep::Ask(action);
                    },
                    WorkerStep::Fail(failure) => {
                        return WorkerStep::Fail(failure);
                    },
                    WorkerStep::Next(identity) => {
                        found.push(
                            Some(
                                NodeRecord {
                                    target,
                                    directory,
                                    disposition: WorkerDirectoryNodeDisposition::Existing,
                                    identity,
                                },
                            ),
                        );
                    },
                }
                next = next + 3;
            },
        }
        ordinal = ordinal + 1;
    }
    WorkerStep::Next(next)
}

/// Making those of the directories in the root that are missing, from `ordinal`
/// on; `canonical` directories of the layout were made before.
pub open spec fn filled(
    control: WorkerMutationControl,
    replies: Seq<WorkerReply>,
    at: nat,
    root: WorkerDirectoryRef,
    ordinal: nat,
    found: Seq<Option<NodeRecord>>,
    canonical: nat,
    created: Seq<RetainedCreatedWorkerDirectory>,
    children: Seq<NodeRecord>,
) -> (WorkerStep<usize>, Seq<RetainedCreatedWorkerDirectory>, Seq<NodeRecord>)
    decreases CHILD_COUNT - ordinal,
{
    if ordinal >= CHILD_COUNT {
        (WorkerStep::Next(at as usize), created, children)
    } else {
        match found[ordinal as int] {
            Some(record) => filled(
                control,
                replies,
                at,
                root,
                ordinal + 1,
                found,
                canonical,
                created,
                children.push(record),
            ),
            None => match placed(
                control,
                replies,
                at,
                created,
                root,
                WorkerTarget::Child { ordinal: ordinal as usize },
                true,
            ) {
                (WorkerStep::Ask(action), kept) => (WorkerStep::Ask(action), kept, children),
                (WorkerStep::Fail(failure), kept) => (WorkerStep::Fail(failure), kept, children),
                (WorkerStep::Next(placed), kept) => {
                    let made = placed.record.disposition
                        == WorkerDirectoryNodeDisposition::Created;
                    let count = if made {
                        canonical + 1
                    } else {
                        canonical
                    };
                    if made && worker_ops::canonical_injection(control, count) is Some {
                        (
                            WorkerStep::Fail(worker_ops::canonical_injection(control, count)->0),
                            kept,
                            children,
                        )
                    } else {
                        filled(
                            control,
                            replies,
                            placed.next as nat,
                            root,
                            ordinal + 1,
                            found,
                            count,
                            kept,
                            children.push(placed.record),
                        )
                    }
                },
            },
        }
    }
}

fn fill_children(
    control: WorkerMutationControl,
    replies: &[WorkerReply],
    at: usize,
    root: WorkerDirectoryRef,
    found: &[Option<NodeRecord>],
    canonical: usize,
    evidence: &mut CreatedWorkerDirectoryEvidence,
    children: &mut Vec<NodeRecord>,
) -> (step: WorkerStep<usize>)
    requires
        at <= replies@.len(),
        found@.len() == CHILD_COUNT,
        canonical <= 1,
        old(children)@.len() == 0,
    ensures
        (step, final(evidence).created@, final(children)@) == filled(
            control,
            replies@,
            at as nat,
            root,
            0,
            found@,
            canonical as nat,
            old(evidence).created@,
            Seq::<NodeRecord>::empty(),
        ),
        step matches WorkerStep::Next(next) ==> next <= replies@.len() && final(children)@.len()
            == CHILD_COUNT,
{
    let ghost whole = filled(
        control,
        replies@,
        at as nat,
        root,
        0,
        found@,
        canonical as nat,
        old(evidence).created@,
        Seq::<NodeRecord>::empty(),
    );
    let mut next: usize = at;
    let mut ordinal: usize = 0;
    let mut count: usize = canonical;
    assert(children@ =~= Seq::<NodeRecord>::empty());
    while ordinal < CHILD_COUNT
        invariant
            ordinal <= CHILD_COUNT,
            found@.len() == CHILD_COUNT,
            count <= ordinal + 1,
            next <= replies@.len(),
            children@.len() == ordinal,
            whole == filled(
                control,
                replies@,
                next as nat,
                root,
                ordinal as nat,
                found@,
                count as nat,
                evidence.created@,
                children@,
            ),
            whole == filled(
                control,
                replies@,
                at as nat,
                root,
                0,
                found@,
                canonical as nat,
                old(evidence).created@,
                Seq::<NodeRecord>::empty(),
            ),
        decreases CHILD_COUNT - ordinal,
    {
        match found[ordinal] {
            Some(record) => {
                children.push(record);
            },
            None => {
                let placed = match place_worker_directory(
                    control,
                    replies,
                    next,
                    evidence,
                    root,
                    WorkerTarget::Child { ordinal },
                    true,
                ) {
                    WorkerStep::Ask(action) => {
                        return WorkerStep::Ask(action);
                    },
                    WorkerStep::Fail(failure) => {
                        return WorkerStep::Fail(failure);
                    },
                    WorkerStep::Next(placed) => placed,
                };
                if placed.record.disposition == WorkerDirectoryNodeDisposition::Created {
                    count = count + 1;
                    match control.fail_if_requested(count) {
                        Ok(()) => {},
                        Err(failure) => {
                            return WorkerStep::Fail(failure);
                        },
                    }
                }
                children.push(placed.record);
                next = placed.next;
            },
        }
        ordinal = ordinal + 1;
    }
    WorkerStep::Next(next)
}

// ---------------------------------------------------------------------------
// A last look
// ---------------------------------------------------------------------------

/// Whether the directories in the root are still those that were made or found,
/// from `ordinal` on.
pub open spec fn children_confirmed(
    replies: Seq<WorkerReply>,
    at: nat,
    root: WorkerDirectoryRef,
    ordinal: nat,
    children: Seq<NodeRecord>,
) -> WorkerStep<()>
    decreases CHILD_COUNT - ordinal,
{
    if ordinal >= CHILD_COUNT {
        WorkerStep::Next(())
    } else {
        match worker_ops::asked(
            replies,
            at,
            WorkerAction::Reopen {
                parent: root,
                target: WorkerTarget::Child { ordinal: ordinal as usize },
            },
        ) {
            WorkerStep::Ask(action) => WorkerStep::Ask(action),
            WorkerStep::Fail(failure) => WorkerStep::Fail(failure),
            WorkerStep::Next(identity) => if identity != children[ordinal as int].identity {
                WorkerStep::Fail(
                    error::denied("worker layout child identity changed during creation"),
                )
            } else {
                children_confirmed(replies, at + 1, root, ordinal + 1, children)
            },
        }
    }
}

/// Whether the root and the directories in it are still those that were made or
/// found.
pub open spec fn confirmed(
    plan: LayoutPlan,
    replies: Seq<WorkerReply>,
    at: nat,
    root: WorkerDirectoryRef,
    root_identity: WorkerDirectoryIdentity,
    children: Seq<NodeRecord>,
) -> WorkerStep<()> {
    match worker_ops::asked(replies, at, WorkerAction::Identify { directory: root }) {
        WorkerStep::Ask(action) => WorkerStep::Ask(action),
        WorkerStep::Fail(failure) => WorkerStep::Fail(failure),
        WorkerStep::Next(identity) => if identity != root_identity {
            WorkerStep::Fail(error::denied("worker root identity changed during layout creation"))
        } else {
            match worker_ops::asked(
                replies,
                at + 1,
                WorkerAction::OpenPath { target: root_target(plan) },
            ) {
                WorkerStep::Ask(action) => WorkerStep::Ask(action),
                WorkerStep::Fail(failure) => WorkerStep::Fail(failure),
                WorkerStep::Next(identity) => if identity != root_identity {
                    WorkerStep::Fail(
                        error::denied("worker root pathname changed during layout creation"),
                    )
                } else {
                    children_confirmed(replies, at + 2, root, 0, children)
                },
            }
        },
    }
}

/// The place of the root.
pub open spec fn root_target(plan: LayoutPlan) -> WorkerTarget {
    WorkerTarget::Component { index: (plan.component_count - 1) as usize }
}

fn confirm_layout(
    plan: &LayoutPlan,
    replies: &[WorkerReply],
    at: usize,
    root: WorkerDirectoryRef,
    root_identity: &WorkerDirectoryIdentity,
    children: &[NodeRecord],
) -> (step: WorkerStep<()>)
    requires
        plan.well_formed(),
        at <= replies@.len(),
        children@.len() == CHILD_COUNT,
    ensures
        step == confirmed(*plan, replies@, at as nat, root, *root_identity, children@),
{
    match ask(replies, at, WorkerAction::Identify { directory: root }) {
        WorkerStep::Ask(action) => {
            return WorkerStep::Ask(action);
        },
        WorkerStep::Fail(failure) => {
            return WorkerStep::Fail(failure);
        },
        WorkerStep::Next(identity) => {
            if !identity.same_as(root_identity) {
                return WorkerStep::Fail(
                    permission_denied("worker root identity changed during layout creation"),
                );
            }
        },
    }
    let target = WorkerTarget::Component { index: plan.component_count - 1 };
    match ask(replies, at + 1, WorkerAction::OpenPath { target }) {
        WorkerStep::Ask(action) => {
            return WorkerStep::Ask(action);
        },
        WorkerStep::Fail(failure) => {
            return WorkerStep::Fail(failure);
        },
        WorkerStep::Next(identity) => {
            if !identity.same_as(root_identity) {
                return WorkerStep::Fail(
                    permission_denied("worker root pathname changed during layout creation"),
                );
            }
        },
    }
    let ghost whole = children_confirmed(replies@, (at + 2) as nat, root, 0, children@);
    let mut next: usize = at + 2;
    let mut ordinal: usize = 0;
    while ordinal < CHILD_COUNT
        invariant
            ordinal <= CHILD_COUNT,
            next <= replies@.len(),
            children@.len() == CHILD_COUNT,
            whole == children_confirmed(replies@, next as nat, root, ordinal as nat, children@),
            whole == confirmed(*plan, replies@, at as nat, root, *root_identity, children@),
        decreases CHILD_COUNT - ordinal,
    {
        let target = WorkerTarget::Child { ordinal };
        match ask(replies, next, WorkerAction::Reopen { parent: root, target }) {
            WorkerStep::Ask(action) => {
                return WorkerStep::Ask(action);
            },
            WorkerStep::Fail(failure) => {
                return WorkerStep::Fail(failure);
            },
            WorkerStep::Next(identity) => {
                if !identity.same_as(&children[ordinal].identity) {
                    return WorkerStep::Fail(
                        permission_denied("worker layout child identity changed during creation"),
                    );
                }
            },
        }
        next = next + 1;
        ordinal = ordinal + 1;
    }
    WorkerStep::Next(())
}

// ---------------------------------------------------------------------------
// The whole
// ---------------------------------------------------------------------------

/// How far making a layout got, and what was made by then.
pub enum LayoutRun {
    Ask { action: WorkerAction },
    Failed { failure: PlatformError, created: Seq<RetainedCreatedWorkerDirectory> },
    Complete {
        root: NodeRecord,
        children: Seq<NodeRecord>,
        created: Seq<RetainedCreatedWorkerDirectory>,
    },
}

/// A procedure that did not come to its end.
pub open spec fn stopped<T>(
    step: WorkerStep<T>,
    created: Seq<RetainedCreatedWorkerDirectory>,
) -> LayoutRun {
    match step {
        WorkerStep::Ask(action) => LayoutRun::Ask { action },
        WorkerStep::Fail(failure) => LayoutRun::Failed { failure, created },
        WorkerStep::Next(_) => arbitrary(),
    }
}

/// Making the directories in a root that was reached, and the last look.
pub open spec fn furnished(
    plan: LayoutPlan,
    replies: Seq<WorkerReply>,
    root: ReachedRoot,
    created: Seq<RetainedCreatedWorkerDirectory>,
) -> LayoutRun {
    let identified = worker_ops::asked(
        replies,
        root.next as nat,
        WorkerAction::Identify { directory: root.directory },
    );
    match identified {
        WorkerStep::Next(root_identity) => {
            let (look, found) = looked(
                replies,
                (root.next + 1) as nat,
                root.directory,
                0,
                Seq::<Option<NodeRecord>>::empty(),
            );
            match look {
                WorkerStep::Next(at) => {
                    let canonical: nat = if root.disposition
                        == WorkerDirectoryNodeDisposition::Created {
                        1
                    } else {
                        0
                    };
                    let (fill, kept, children) = filled(
                        plan.control,
                        replies,
                        at as nat,
                        root.directory,
                        0,
                        found,
                        canonical,
                        created,
                        Seq::<NodeRecord>::empty(),
                    );
                    match fill {
                        WorkerStep::Next(at) => {
                            let last = confirmed(
                                plan,
                                replies,
                                at as nat,
                                root.directory,
                                root_identity,
                                children,
                            );
                            match last {
                                WorkerStep::Next(_) => LayoutRun::Complete {
                                    root: NodeRecord {
                                        target: root_target(plan),
                                        directory: root.directory,
                                        disposition: root.disposition,
                                        identity: root_identity,
                                    },
                                    children,
                                    created: kept,
                                },
                                _ => stopped(last, kept),
                            }
                        },
                        _ => stopped(fill, kept),
                    }
                },
                _ => stopped(look, created),
            }
        },
        _ => stopped(identified, created),
    }
}

/// Making a layout.
pub open spec fn layout_run(plan: LayoutPlan, replies: Seq<WorkerReply>) -> LayoutRun {
    let nothing = Seq::<RetainedCreatedWorkerDirectory>::empty();
    match worker_ops::canonical_injection(plan.control, 0) {
        Some(failure) => LayoutRun::Failed { failure, created: nothing },
        None => match worker_ops::native_injection(plan.control, 0) {
            Some(failure) => LayoutRun::Failed { failure, created: nothing },
            None => {
                let prepared = followed(
                    plan,
                    replies,
                    0,
                    plan.first_creatable as nat,
                    WorkerDirectoryRef::Anchor,
                );
                match prepared {
                    WorkerStep::Next(prepared) => {
                        let (reached, created) = grown(
                            plan,
                            replies,
                            prepared.next as nat,
                            prepared.next_component as nat,
                            prepared.directory,
                            WorkerDirectoryNodeDisposition::Existing,
                            nothing,
                        );
                        match reached {
                            WorkerStep::Next(root) => furnished(plan, replies, root, created),
                            _ => stopped(reached, created),
                        }
                    },
                    _ => stopped(prepared, nothing),
                }
            },
        },
    }
}

/// What a change left: the whole layout, or what was made of it.
#[derive(Debug)]
pub enum WorkerMutationEvidence {
    Complete {
        root: NodeRecord,
        children: Vec<NodeRecord>,
        created: CreatedWorkerDirectoryEvidence,
    },
    Partial { created: CreatedWorkerDirectoryEvidence },
}

/// How far making a layout got.
#[derive(Debug)]
pub enum LayoutStep {
    /// This operation is next.
    Ask(WorkerAction),
    /// It is over, with this failure or none.
    Done { failure: Option<PlatformError>, evidence: WorkerMutationEvidence },
}

/// What a step says.
pub open spec fn run_of(step: LayoutStep) -> LayoutRun {
    match step {
        LayoutStep::Ask(action) => LayoutRun::Ask { action },
        LayoutStep::Done {
            failure: None,
            evidence: WorkerMutationEvidence::Complete { root, children, created },
        } => LayoutRun::Complete { root, children: children@, created: created.created@ },
        LayoutStep::Done {
            failure: Some(failure),
            evidence: WorkerMutationEvidence::Partial { created },
        } => LayoutRun::Failed { failure, created: created.created@ },
        _ => arbitrary(),
    }
}

/// A step that holds together: a change that did not fail is complete.
pub open spec fn coherent_step(step: LayoutStep) -> bool {
    match step {
        LayoutStep::Ask(_) => true,
        LayoutStep::Done { failure, evidence } => failure is None <==> evidence is Complete,
    }
}

fn failed(failure: PlatformError, created: CreatedWorkerDirectoryEvidence) -> (step: LayoutStep)
    ensures
        run_of(step) == (LayoutRun::Failed { failure, created: created.created@ }),
        coherent_step(step),
{
    LayoutStep::Done {
        failure: Some(failure),
        evidence: WorkerMutationEvidence::Partial { created },
    }
}

/// Makes a layout: given the replies to all operations so far, the next
/// operation, or what came of it all.
pub fn perform_worker_directory_mutation(plan: &LayoutPlan, replies: &[WorkerReply]) -> (step:
    LayoutStep)
    requires
        plan.well_formed(),
    ensures
        run_of(step) == layout_run(*plan, replies@),
        coherent_step(step),
{
    let mut evidence = CreatedWorkerDirectoryEvidence::new();
    match plan.control.fail_if_requested(0) {
        Ok(()) => {},
        Err(failure) => {
            return failed(failure, evidence);
        },
    }
    match plan.control.fail_after_native_create_if_requested(0) {
        Ok(()) => {},
        Err(failure) => {
            return failed(failure, evidence);
        },
    }
    let prepared = match prepare_worker_root_from_anchor(plan, replies) {
        WorkerStep::Ask(action) => {
            return LayoutStep::Ask(action);
        },
        WorkerStep::Fail(failure) => {
            return failed(failure, evidence);
        },
        WorkerStep::Next(prepared) => prepared,
    };
    let root = match grow_worker_root(plan, replies, prepared, &mut evidence) {
        WorkerStep::Ask(action) => {
            return LayoutStep::Ask(action);
        },
        WorkerStep::Fail(failure) => {
            return failed(failure, evidence);
        },
        WorkerStep::Next(root) => root,
    };
    let root_identity = match ask(
        replies,
        root.next,
        WorkerAction::Identify { directory: root.directory },
    ) {
        WorkerStep::Ask(action) => {
            return LayoutStep::Ask(action);
        },
        WorkerStep::Fail(failure) => {
            return failed(failure, evidence);
        },
        WorkerStep::Next(identity) => identity,
    };
    let mut found: Vec<Option<NodeRecord>> = Vec::new();
    let at: usize = match look_for_children(replies, root.next + 1, root.directory, &mut found) {
        WorkerStep::Ask(action) => {
            return LayoutStep::Ask(action);
        },
        WorkerStep::Fail(failure) => {
            return failed(failure, evidence);
        },
        WorkerStep::Next(at) => at,
    };
    let canonical: usize = if root.disposition == WorkerDirectoryNodeDisposition::Created {
        1
    } else {
        0
    };
    let mut children: Vec<NodeRecord> = Vec::new();
    let at: usize = match fill_children(
        plan.control,
        replies,
        at,
        root.directory,
        &found,
        canonical,
        &mut evidence,
        &mut children,
    ) {
        WorkerStep::Ask(action) => {
            return LayoutStep::Ask(action);
        },
        WorkerStep::Fail(failure) => {
            return failed(failure, evidence);
        },
        WorkerStep::Next(at) => at,
    };
    match confirm_layout(plan, replies, at, root.directory, &root_identity, &children) {
        WorkerStep::Ask(action) => {
            return LayoutStep::Ask(action);
        },
        WorkerStep::Fail(failure) => {
            return failed(failure, evidence);
        },
        WorkerStep::Next(_) => {},
    }
    let record = NodeRecord {
        target: WorkerTarget::Component { index: plan.component_count - 1 },
        directory: root.directory,
        disposition: root.disposition,
        identity: root_identity,
    };
    LayoutStep::Done {
        failure: None,
        evidence: WorkerMutationEvidence::Complete { root: record, children, created: evidence },
    }
}

} // verus!
