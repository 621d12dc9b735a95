//! What is handed over of what was made: only after another look at it, and nothing that
//! was made is lost on the way.

use crate::error::{ErrorKind, PlatformError};
use crate::evidence;
use crate::evidence::{
    VerifiedWorkerDirectoryBinding, VerifiedWorkerDirectoryFailureBinding,
    VerifiedWorkerDirectoryNodeBinding, VerifiedWorkerDirectoryNodeFailureBinding,
    WorkerDirectoryBindingError, WorkerDirectoryBound, WorkerDirectoryCreation,
    WorkerDirectoryCreationError, WorkerDirectoryFailureBindingError,
    WorkerDirectoryFailureEvidence, WorkerDirectoryNodeCreation, WorkerDirectoryNodeCreationError,
    WorkerDirectoryNodeFailureBindingError, WorkerDirectoryNodeFailureBound,
};
use crate::inspection_laws::{belongs, lemma_belongs};
use crate::layout;
use crate::layout::{PathModel, WorkerDirectoryLayout, WorkerDirectoryNode, WorkerPath};
use crate::layout_mutation::{CreatedWorkerDirectoryEvidence, NodeRecord, WorkerMutationEvidence};
use crate::node_mutation;
use crate::node_mutation::{worker_target_path, WorkerNodeMutationEvidence};
use crate::privilege::{PrivilegeError, WindowsPrivilegedWorkerMutationResolution};
use crate::procedure_laws::done;
use crate::root_laws::{denied, is_entry, units};
use crate::worker_create::{
    begin_worker_creation, create_worker_directory_layout, create_worker_directory_node,
    CreationChecks, MutationRun,
};
use crate::worker_ops;
use crate::worker_ops::{
    RetainedCreatedWorkerDirectory, WorkerDirectoryIdentity, WorkerDirectoryNodeDisposition,
    WorkerDirectoryNodeObservation, WorkerReply, WorkerStep, WorkerTarget,
};
use crate::worker_outcome;
use crate::worker_outcome::{
    finish_worker_directory_mutation, finish_worker_directory_node_mutation, reverify_path_identity,
    reverify_worker_directory_failure_evidence, reverify_worker_directory_lease,
    reverify_worker_directory_node_failure_evidence, reverify_worker_directory_node_lease,
    LockFacts, WorkerDirectoryLease, WorkerDirectoryNodeCreateOutcome,
};
use vstd::prelude::*;

verus! {

// ---------------------------------------------------------------------------
// Places
// ---------------------------------------------------------------------------

/// Whether a path is that of a place of a layout: the beginning of the root's path, or an
/// entry of the root by its name.
pub open spec fn stands_at(path: PathModel, root: PathModel, target: WorkerTarget) -> bool {
    match target {
        WorkerTarget::Component { index } => path.prefix == root.prefix && path.components
            == root.components.take(
            if index < root.components.len() {
                index + 1
            } else {
                root.components.len() as int
            },
        ),
        WorkerTarget::Child { ordinal } => is_entry(
            path,
            root,
            units(
                if ordinal == 0 {
                    "repos"@
                } else if ordinal == 1 {
                    "jobs"@
                } else if ordinal == 2 {
                    "cache"@
                } else if ordinal == 3 {
                    "artifacts"@
                } else {
                    "logs"@
                },
            ),
        ),
    }
}

proof fn lemma_stands_at(root: PathModel, target: WorkerTarget)
    ensures
        stands_at(node_mutation::target_path(root, target), root, target),
{
    let path = node_mutation::target_path(root, target);
    match target {
        WorkerTarget::Component { index } => {
            let n = if index < root.components.len() {
                index + 1
            } else {
                root.components.len() as int
            };
            assert(path.components =~= root.components.take(n));
        },
        WorkerTarget::Child { ordinal } => {
            let name = node_mutation::child_name(ordinal as nat);
            assert(layout::ascii_units(name) =~= units(name));
            assert(path.components =~= root.components + seq![units(name)]);
        },
    }
}

/// Every place of a layout has its path.
pub proof fn places_have_their_paths(root: &WorkerPath, target: WorkerTarget, path: WorkerPath)
    requires
        call_ensures(worker_target_path, (root, target), path),
    ensures
        stands_at(path@, root@, target),
{
    lemma_stands_at(root@, target);
}

// ---------------------------------------------------------------------------
// What a change comes to
// ---------------------------------------------------------------------------

/// What was made of one directory.
pub open spec fn made_of_node(
    evidence: WorkerNodeMutationEvidence,
) -> Seq<RetainedCreatedWorkerDirectory> {
    match evidence {
        WorkerNodeMutationEvidence::Complete { created, .. } => created.created@,
        WorkerNodeMutationEvidence::Partial { created } => created.created@,
    }
}

/// What was made of a layout.
pub open spec fn made_of_layout(
    evidence: WorkerMutationEvidence,
) -> Seq<RetainedCreatedWorkerDirectory> {
    match evidence {
        WorkerMutationEvidence::Complete { created, .. } => created.created@,
        WorkerMutationEvidence::Partial { created } => created.created@,
    }
}

/// Whether a failure holds everything that was made, and the lock with it; where nothing
/// was made there is nothing to hold.
pub open spec fn holds_all<Lease>(
    failure: WorkerDirectoryNodeCreationError<Lease>,
    primary: PrivilegeError,
    made: Seq<RetainedCreatedWorkerDirectory>,
    lease: Lease,
) -> bool {
    match failure {
        WorkerDirectoryNodeCreationError::Native { error } => error == primary && made.len() == 0,
        WorkerDirectoryNodeCreationError::Retained { primary: first, evidence } => first == primary
            && made.len() > 0 && evidence.created.created@ == made && evidence.lease == lease,
    }
}

/// One directory is said to be there exactly where it was; it is handed over exactly where
/// it alone was made, with its path, its identity and the lock. Every failure holds what
/// was made.
pub proof fn made_directories_are_handed_over<Lease>(
    resolution: WindowsPrivilegedWorkerMutationResolution<WorkerNodeMutationEvidence>,
    root: &WorkerPath,
    lease: Lease,
    result: Result<
        WorkerDirectoryNodeCreateOutcome<Lease>,
        WorkerDirectoryNodeCreationError<Lease>,
    >,
)
    requires
        call_ensures(
            finish_worker_directory_node_mutation::<Lease>,
            (resolution, root, lease),
            result,
        ),
        resolution matches WindowsPrivilegedWorkerMutationResolution::Success(evidence) ==> evidence
            is Complete,
    ensures
        match resolution {
            WindowsPrivilegedWorkerMutationResolution::Success(evidence) => {
                let record = evidence->record;
                let made = made_of_node(evidence);
                &&& (result matches Ok(WorkerDirectoryNodeCreateOutcome::Existing))
                    <==> record.disposition == WorkerDirectoryNodeDisposition::Existing
                &&& (result matches Ok(WorkerDirectoryNodeCreateOutcome::Created(_)))
                    <==> record.disposition == WorkerDirectoryNodeDisposition::Created
                    && made.len() == 1
                &&& result matches Ok(WorkerDirectoryNodeCreateOutcome::Created(creation)) ==> {
                    &&& stands_at(creation.observation@.path, root@, record.target)
                    &&& creation.observation@.disposition
                        == WorkerDirectoryNodeDisposition::Created
                    &&& creation.observation@.identity == record.identity
                    &&& creation.lease.lease == lease
                    &&& creation.lease.created == made[0]
                }
                &&& result matches Err(failure) ==> (
                failure matches WorkerDirectoryNodeCreationError::Retained {
                    primary: PrivilegeError::Single(refusal),
                    evidence,
                } && refusal.spec_kind() == ErrorKind::PermissionDenied && evidence.created.created@
                    == made && evidence.lease == lease)
            },
            WindowsPrivilegedWorkerMutationResolution::OperationFailure { error, evidence } =>
                result matches Err(failure) && holds_all(
                failure,
                PrivilegeError::Single(error),
                made_of_node(evidence),
                lease,
            ),
            WindowsPrivilegedWorkerMutationResolution::Failure {
                cleanup_error,
                evidence,
                ..
            } => result matches Err(failure) && holds_all(
                failure,
                cleanup_error,
                made_of_node(evidence),
                lease,
            ),
        },
{
    if let WindowsPrivilegedWorkerMutationResolution::Success(evidence) = resolution {
        lemma_stands_at(root@, evidence->record.target);
    }
}

/// Whether an observation is that of a directory of a layout.
pub open spec fn observes(
    observation: WorkerDirectoryNodeObservation,
    root: PathModel,
    record: NodeRecord,
) -> bool {
    &&& stands_at(observation@.path, root, record.target)
    &&& observation@.disposition == record.disposition
    &&& observation@.identity == record.identity
}

/// A layout is handed over exactly where all of it was made: the root, then what is in it,
/// each as it was observed, with the lock. Every failure holds what was made, the lock,
/// and says whether a privilege could not be given back.
pub proof fn made_layouts_are_handed_over<Lease>(
    resolution: WindowsPrivilegedWorkerMutationResolution<WorkerMutationEvidence>,
    root: &WorkerPath,
    lease: Lease,
    result: Result<
        WorkerDirectoryCreation<WorkerDirectoryLease<Lease>>,
        WorkerDirectoryCreationError<Lease>,
    >,
)
    requires
        call_ensures(finish_worker_directory_mutation::<Lease>, (resolution, root, lease), result),
        resolution matches WindowsPrivilegedWorkerMutationResolution::Success(evidence) ==> (
        evidence matches WorkerMutationEvidence::Complete { children, .. } && children@.len() == 5),
    ensures
        result is Ok <==> resolution is Success,
        resolution matches WindowsPrivilegedWorkerMutationResolution::Success(
            WorkerMutationEvidence::Complete { root: first, children, .. },
        ) ==> (result matches Ok(creation) ==> {
            &&& observes(creation.nodes@[0], root@, first)
            &&& forall|i: int|
                0 <= i < 5 ==> observes(#[trigger] creation.nodes@[i + 1], root@, children@[i])
            &&& creation.lease.lease == lease
            &&& creation.lease.nodes@ == seq![first] + children@
        }),
        resolution matches WindowsPrivilegedWorkerMutationResolution::OperationFailure {
            error,
            evidence,
        } ==> (result matches Err(
            WorkerDirectoryCreationError::RetainedWindowsEvidence {
                primary,
                operation_error,
                privilege_cleanup_failed,
                evidence: held,
            },
        ) && primary == PrivilegeError::Single(error) && operation_error is None
            && !privilege_cleanup_failed && held.created.created@ == made_of_layout(evidence)
            && held.lease == lease),
        resolution matches WindowsPrivilegedWorkerMutationResolution::Failure {
            operation_error: first,
            cleanup_error,
            evidence,
        } ==> (result matches Err(
            WorkerDirectoryCreationError::RetainedWindowsEvidence {
                primary,
                operation_error,
                privilege_cleanup_failed,
                evidence: held,
            },
        ) && primary == cleanup_error && operation_error == first && privilege_cleanup_failed
            && held.created.created@ == made_of_layout(evidence) && held.lease == lease),
{
    if let WindowsPrivilegedWorkerMutationResolution::Success(
        WorkerMutationEvidence::Complete { root: first, children, .. },
    ) = resolution {
        if let Ok(creation) = result {
            let all = worker_outcome::all_records(first, children@);
            let seen = evidence::observations_model(creation.nodes@);
            let wanted = all.map_values(
                |record: NodeRecord| worker_outcome::observation_of(root@, record),
            );
            assert(seen == wanted);
            assert(seen.len() == 6 && wanted.len() == 6);
            assert forall|i: int| 0 <= i < 6 implies observes(
                #[trigger] creation.nodes@[i],
                root@,
                all[i],
            ) by {
                lemma_stands_at(root@, all[i].target);
                assert(seen[i] == creation.nodes@[i]@);
                assert(wanted[i] == worker_outcome::observation_of(root@, all[i]));
            }
            assert forall|i: int| 0 <= i < 5 implies observes(
                #[trigger] creation.nodes@[i + 1],
                root@,
                children@[i],
            ) by {
                assert(all[i + 1] == children@[i]);
            }
        }
    }
}

/// Whether a change ran through: it was begun, it ran, nothing failed in it, and a
/// privilege that it took was given back.
pub open spec fn ran_through<Evidence>(
    begun: Result<bool, PlatformError>,
    run: MutationRun<Evidence>,
) -> bool {
    begun matches Ok(privileged) && (run matches MutationRun::Ran { mutation, cleanup }
        && mutation.operation_error is None && (privileged ==> cleanup is Ok))
}

/// Whether a change that did not run through failed so: with what spoke against it, with
/// why it could not start, with why a privilege could not be given back, or with what
/// failed in it.
pub open spec fn failed_so<Evidence>(
    begun: Result<bool, PlatformError>,
    run: MutationRun<Evidence>,
    primary: PrivilegeError,
) -> bool {
    match begun {
        Err(failure) => primary == PrivilegeError::Single(failure),
        Ok(privileged) => match run {
            MutationRun::NotStarted(failure) => primary == failure,
            MutationRun::Ran { mutation, cleanup } => if privileged && cleanup is Err {
                primary == cleanup->Err_0
            } else {
                primary == PrivilegeError::Single(mutation.operation_error->0)
            },
        },
    }
}

/// A layout is made exactly where its making ran through. Otherwise the failure says why,
/// and holds everything that was made where the making ran.
pub proof fn layouts_are_made_where_their_making_ran_through<Lease>(
    layout: &WorkerDirectoryLayout,
    checks: &CreationChecks,
    run: MutationRun<WorkerMutationEvidence>,
    lease: Lease,
    begun: Result<bool, PlatformError>,
    result: Result<
        WorkerDirectoryCreation<WorkerDirectoryLease<Lease>>,
        WorkerDirectoryCreationError<Lease>,
    >,
)
    requires
        call_ensures(begin_worker_creation, (checks,), begun),
        call_ensures(create_worker_directory_layout::<Lease>, (layout, checks, run, lease), result),
        run matches MutationRun::Ran { mutation, .. } ==> (mutation.operation_error is None
            ==> worker_outcome::is_whole(mutation.evidence)),
    ensures
        result is Ok <==> ran_through(begun, run),
        result matches Err(WorkerDirectoryCreationError::Native { error }) ==> (begun is Err
            || run is NotStarted) && failed_so(begun, run, error),
        result matches Err(
            WorkerDirectoryCreationError::RetainedWindowsEvidence {
                primary,
                operation_error,
                privilege_cleanup_failed,
                evidence,
            },
        ) ==> {
            &&& begun is Ok && failed_so(begun, run, primary)
            &&& run matches MutationRun::Ran { mutation, cleanup } && evidence.created.created@
                == made_of_layout(mutation.evidence) && privilege_cleanup_failed == (begun->Ok_0
                && cleanup is Err) && operation_error == if privilege_cleanup_failed {
                mutation.operation_error
            } else {
                None
            }
            &&& evidence.lease == lease
        },
{
}

/// One directory is made exactly where it belongs to the layout and its making ran
/// through with it alone, and is said to be there where it was found. Nothing is made of
/// what does not belong to the layout; a failure holds what was made.
pub proof fn directories_are_made_where_their_making_ran_through<Lease>(
    layout: &WorkerDirectoryLayout,
    node: WorkerDirectoryNode,
    checks: &CreationChecks,
    run: MutationRun<WorkerNodeMutationEvidence>,
    lease: Lease,
    begun: Result<bool, PlatformError>,
    result: Result<
        WorkerDirectoryNodeCreateOutcome<Lease>,
        WorkerDirectoryNodeCreationError<Lease>,
    >,
)
    requires
        call_ensures(begin_worker_creation, (checks,), begun),
        call_ensures(
            create_worker_directory_node::<Lease>,
            (layout, node, checks, run, lease),
            result,
        ),
        run matches MutationRun::Ran { mutation, .. } ==> (mutation.operation_error is None
            ==> mutation.evidence is Complete),
    ensures
        !belongs(layout, node) ==> (result matches Err(
            WorkerDirectoryNodeCreationError::Native { error: PrivilegeError::Single(refusal) },
        ) && refusal.spec_kind() == ErrorKind::PermissionDenied),
        result is Ok ==> belongs(layout, node) && ran_through(begun, run),
        belongs(layout, node) && ran_through(begun, run) ==> {
            let evidence = run->mutation.evidence;
            &&& (result matches Ok(WorkerDirectoryNodeCreateOutcome::Existing))
                <==> evidence->record.disposition == WorkerDirectoryNodeDisposition::Existing
            &&& (result matches Ok(WorkerDirectoryNodeCreateOutcome::Created(_)))
                <==> evidence->record.disposition == WorkerDirectoryNodeDisposition::Created
                && made_of_node(evidence).len() == 1
        },
        belongs(layout, node) && !ran_through(begun, run) ==> (result matches Err(failure)
            && match failure {
            WorkerDirectoryNodeCreationError::Native { error } => failed_so(begun, run, error) && (
            begun is Ok && run is Ran ==> made_of_node(run->mutation.evidence).len() == 0),
            WorkerDirectoryNodeCreationError::Retained { primary, evidence } => begun is Ok && run
                is Ran && failed_so(begun, run, primary) && evidence.created.created@
                == made_of_node(run->mutation.evidence) && evidence.lease == lease,
        }),
{
    lemma_belongs(layout, node);
}

/// What is held is counted: everything that was made, and what of it has no identity yet,
/// is as many as the failure says, and a failure that holds nothing says none.
pub proof fn what_is_held_is_counted<Lease>(
    node: &WorkerDirectoryNodeCreationError<Lease>,
    held: usize,
    unresolved: usize,
    whole: &WorkerDirectoryCreationError<Lease>,
    whole_held: usize,
    whole_unresolved: usize,
    cleanup: bool,
)
    requires
        call_ensures(
            WorkerDirectoryNodeCreationError::<Lease>::retained_creation_evidence_count,
            (node,),
            held,
        ),
        call_ensures(
            WorkerDirectoryNodeCreationError::<Lease>::retained_unresolved_creation_evidence_count,
            (node,),
            unresolved,
        ),
        call_ensures(
            WorkerDirectoryCreationError::<Lease>::retained_creation_evidence_count,
            (whole,),
            whole_held,
        ),
        call_ensures(
            WorkerDirectoryCreationError::<Lease>::retained_unresolved_creation_evidence_count,
            (whole,),
            whole_unresolved,
        ),
        call_ensures(
            WorkerDirectoryCreationError::<Lease>::is_windows_privilege_cleanup_failure,
            (whole,),
            cleanup,
        ),
    ensures
        *node is Native ==> held == 0 && unresolved == 0,
        *node matches WorkerDirectoryNodeCreationError::Retained { evidence, .. } ==> counts(
            evidence.created.created@,
            held,
            unresolved,
        ),
        *whole is Native ==> whole_held == 0 && whole_unresolved == 0 && !cleanup,
        *whole matches WorkerDirectoryCreationError::RetainedWindowsEvidence {
            evidence,
            privilege_cleanup_failed,
            ..
        } ==> cleanup == privilege_cleanup_failed && counts(
            evidence.created.created@,
            whole_held,
            whole_unresolved,
        ),
{
    if let WorkerDirectoryNodeCreationError::Retained { evidence, .. } = *node {
        lemma_counts(evidence.created.created@);
    }
    if let WorkerDirectoryCreationError::RetainedWindowsEvidence { evidence, .. } = *whole {
        lemma_counts(evidence.created.created@);
    }
}

/// Whether directories are as many as said, and those of them without an identity too.
pub open spec fn counts(
    made: Seq<RetainedCreatedWorkerDirectory>,
    held: usize,
    unresolved: usize,
) -> bool {
    &&& held == made.len()
    &&& unresolved == made.filter(
        |one: RetainedCreatedWorkerDirectory| one.identity is None,
    ).len()
}

proof fn lemma_counts(made: Seq<RetainedCreatedWorkerDirectory>)
    ensures
        evidence::unresolved_of(made) == made.filter(
            |one: RetainedCreatedWorkerDirectory| one.identity is None,
        ).len(),
    decreases made.len(),
{
    reveal(Seq::filter);
    if made.len() > 0 {
        lemma_counts(made.drop_last());
    }
}

// ---------------------------------------------------------------------------
// Another look
// ---------------------------------------------------------------------------

/// Whether a lock still holds what it held: the principal is still the planned one, and
/// the path of the locked directory leads to that directory.
pub open spec fn still_holds(facts: LockFacts) -> bool {
    facts.principal is Ok && facts.reopened == Ok::<_, PlatformError>(facts.anchor)
}

/// A lock is confirmed exactly where it still holds what it held.
pub proof fn locks_hold_their_directory(facts: &LockFacts, result: Result<(), PlatformError>)
    requires
        call_ensures(reverify_path_identity, (facts,), result),
    ensures
        result is Ok <==> still_holds(*facts),
        facts.principal is Ok && facts.reopened is Ok && result is Err ==> denied(result),
{
}

/// Whether the three operations from number `at` on show that a directory still has a
/// worker's rules, is the one that was seen, and that its path leads to it.
pub open spec fn is_unchanged(
    replies: Seq<WorkerReply>,
    at: int,
    seen: WorkerDirectoryIdentity,
) -> bool {
    &&& done(replies, at) && done(replies, at + 1) && done(replies, at + 2)
    &&& replies[at + 1].identity == seen
    &&& replies[at + 2].identity == seen
}

proof fn lemma_lease_looked(
    replies: Seq<WorkerReply>,
    index: nat,
    records: Seq<NodeRecord>,
    identities: Seq<WorkerDirectoryIdentity>,
)
    requires
        index <= records.len() == identities.len(),
    ensures
        ({
            let step = worker_outcome::lease_looked(
                replies,
                3 * index,
                index,
                records,
                identities,
            );
            &&& step is Next <==> forall|i: int|
                index <= i < records.len() ==> is_unchanged(replies, 3 * i, #[trigger] identities[i])
            &&& step matches WorkerStep::Ask(action) ==> replies.len() < 3 * records.len()
        }),
    decreases records.len() - index,
{
    let step = worker_outcome::lease_looked(replies, 3 * index, index, records, identities);
    if index < records.len() {
        lemma_lease_looked(replies, index + 1, records, identities);
        assert(3 * index + 3 == 3 * (index + 1));
        let first = is_unchanged(replies, 3 * index as int, identities[index as int]);
        let rest = worker_outcome::lease_looked(
            replies,
            3 * (index + 1),
            index + 1,
            records,
            identities,
        );
        if first {
            assert(step == rest);
            if rest is Next {
                assert forall|i: int| index <= i < records.len() implies is_unchanged(
                    replies,
                    3 * i,
                    #[trigger] identities[i],
                ) by {}
            }
        } else {
            assert(!(step is Next));
        }
    }
}

/// The directories of a layout are confirmed exactly where the lock still holds and each
/// of them is unchanged.
pub proof fn layouts_are_handed_over_unchanged(
    facts: &LockFacts,
    records: &[NodeRecord],
    observations: &[WorkerDirectoryNodeObservation],
    replies: &[WorkerReply],
    step: WorkerStep<()>,
)
    requires
        call_ensures(
            reverify_worker_directory_lease,
            (facts, records, observations, replies),
            step,
        ),
        records@.len() == observations@.len(),
    ensures
        step is Next <==> still_holds(*facts) && forall|i: int|
            0 <= i < observations@.len() ==> is_unchanged(
                replies@,
                3 * i,
                (#[trigger] observations@[i])@.identity,
            ),
        step is Ask ==> still_holds(*facts) && replies@.len() < 3 * records@.len(),
{
    let seen = worker_outcome::identities_of(observations@);
    lemma_lease_looked(replies@, 0, records@, seen);
    if step is Next {
        assert forall|i: int| 0 <= i < observations@.len() implies is_unchanged(
            replies@,
            3 * i,
            (#[trigger] observations@[i])@.identity,
        ) by {
            assert(seen[i] == observations@[i]@.identity);
        }
    } else if still_holds(*facts) {
        let i = choose|i: int|
            0 <= i < records@.len() && !is_unchanged(replies@, 3 * i, #[trigger] seen[i]);
        assert(seen[i] == observations@[i]@.identity);
    }
}

/// Whether the four operations from number `at` on show that a directory that was made
/// still has a worker's rules, is the one that it was, and that its parent and its path
/// lead to it.
pub open spec fn is_still_there(
    replies: Seq<WorkerReply>,
    at: int,
    created: RetainedCreatedWorkerDirectory,
    found: WorkerDirectoryIdentity,
) -> bool {
    &&& done(replies, at) && done(replies, at + 1) && done(replies, at + 2) && done(replies, at + 3)
    &&& replies[at + 1].identity == found
    &&& replies[at + 2].identity == found
    &&& replies[at + 3].identity == found
    &&& created.identity matches Some(known) ==> known == found
}

/// Whether the operations from number `at` on do not show a directory that was made to be
/// still there, whichever it is.
pub open spec fn is_lost(
    replies: Seq<WorkerReply>,
    at: int,
    created: RetainedCreatedWorkerDirectory,
) -> bool {
    forall|other: WorkerDirectoryIdentity|
        !(#[trigger] is_still_there(replies, at, created, other))
}

proof fn lemma_failure_looked(
    replies: Seq<WorkerReply>,
    created: Seq<RetainedCreatedWorkerDirectory>,
    found: Seq<WorkerDirectoryIdentity>,
)
    requires
        found.len() <= created.len(),
        forall|i: int|
            0 <= i < found.len() ==> is_still_there(
                replies,
                4 * i,
                #[trigger] created[i],
                found[i],
            ),
    ensures
        ({
            let step = worker_outcome::failure_looked(replies, 4 * found.len(), created, found);
            &&& step matches WorkerStep::Next(all) ==> all.len() == created.len() && forall|i: int|
                0 <= i < created.len() ==> is_still_there(
                    replies,
                    4 * i,
                    #[trigger] created[i],
                    all[i],
                )
            &&& !(step is Next) ==> exists|i: int|
                0 <= i < created.len() && is_lost(replies, 4 * i, #[trigger] created[i])
        }),
    decreases created.len() - found.len(),
{
    let n = found.len();
    let step = worker_outcome::failure_looked(replies, 4 * n, created, found);
    if n < created.len() {
        let one = worker_ops::reverified(replies, 4 * n, created[n as int]);
        if let WorkerStep::Next(identity) = one {
            let more = found.push(identity);
            assert forall|i: int| 0 <= i < more.len() implies is_still_there(
                replies,
                4 * i,
                #[trigger] created[i],
                more[i],
            ) by {
                if i < n {
                    assert(more[i] == found[i]);
                }
            }
            assert(4 * n + 4 == 4 * (n + 1));
            lemma_failure_looked(replies, created, more);
        } else {
            assert(is_lost(replies, 4 * n as int, created[n as int]));
        }
    }
}

/// Everything that was made before a failure is confirmed exactly where the lock still
/// holds and each directory is still there; each is observed as made, at its place.
pub proof fn what_was_made_before_a_failure_is_looked_at(
    facts: &LockFacts,
    root: &WorkerPath,
    created: &CreatedWorkerDirectoryEvidence,
    replies: &[WorkerReply],
    step: WorkerStep<Vec<WorkerDirectoryNodeObservation>>,
)
    requires
        call_ensures(
            reverify_worker_directory_failure_evidence,
            (facts, root, created, replies),
            step,
        ),
    ensures
        step matches WorkerStep::Next(observations) ==> {
            &&& still_holds(*facts)
            &&& observations@.len() == created.created@.len()
            &&& forall|i: int|
                0 <= i < observations@.len() ==> {
                    &&& stands_at(
                        (#[trigger] observations@[i])@.path,
                        root@,
                        created.created@[i].target,
                    )
                    &&& observations@[i]@.disposition == WorkerDirectoryNodeDisposition::Created
                    &&& is_still_there(
                        replies@,
                        4 * i,
                        created.created@[i],
                        observations@[i]@.identity,
                    )
                }
        },
        !(step is Next) && still_holds(*facts) ==> exists|i: int|
            0 <= i < created.created@.len() && is_lost(
                replies@,
                4 * i,
                #[trigger] created.created@[i],
            ),
{
    let made = created.created@;
    lemma_failure_looked(replies@, made, Seq::<WorkerDirectoryIdentity>::empty());
    if let WorkerStep::Next(observations) = step {
        let look = worker_outcome::failure_look(*facts, replies@, made);
        let identities = look->Next_0;
        let seen = evidence::observations_model(observations@);
        let wanted = worker_outcome::made_observations(root@, made, identities);
        assert(seen == wanted);
        assert(seen.len() == wanted.len());
        assert forall|i: int| 0 <= i < observations@.len() implies {
            &&& stands_at((#[trigger] observations@[i])@.path, root@, made[i].target)
            &&& observations@[i]@.disposition == WorkerDirectoryNodeDisposition::Created
            &&& is_still_there(replies@, 4 * i, made[i], observations@[i]@.identity)
        } by {
            lemma_stands_at(root@, made[i].target);
            assert(seen[i] == observations@[i]@);
            assert(wanted[i].identity == identities[i]);
        }
    }
}

/// One directory that was made is confirmed exactly where the lock still holds, it is
/// still there, and it is what and where it was observed to be; after a failure, where it
/// is the only one that was made.
pub proof fn one_directory_is_handed_over_unchanged(
    facts: &LockFacts,
    created: &RetainedCreatedWorkerDirectory,
    root: &WorkerPath,
    observation: &WorkerDirectoryNodeObservation,
    replies: &[WorkerReply],
    step: WorkerStep<()>,
    held: &CreatedWorkerDirectoryEvidence,
    look: WorkerStep<WorkerDirectoryNodeObservation>,
)
    requires
        call_ensures(
            reverify_worker_directory_node_lease,
            (facts, created, root, observation, replies),
            step,
        ),
        call_ensures(
            reverify_worker_directory_node_failure_evidence,
            (facts, root, held, replies),
            look,
        ),
    ensures
        step is Next ==> still_holds(*facts) && is_still_there(
            replies@,
            0,
            *created,
            observation@.identity,
        ) && stands_at(observation@.path, root@, created.target),
        still_holds(*facts) && is_still_there(replies@, 0, *created, observation@.identity)
            && observation@.path == node_mutation::target_path(root@, created.target)
            ==> step is Next,
        look matches WorkerStep::Next(seen) ==> {
            &&& still_holds(*facts)
            &&& held.created@.len() == 1
            &&& stands_at(seen@.path, root@, held.created@[0].target)
            &&& seen@.disposition == WorkerDirectoryNodeDisposition::Created
            &&& is_still_there(replies@, 0, held.created@[0], seen@.identity)
        },
{
    lemma_stands_at(root@, created.target);
    let made = held.created@;
    lemma_failure_looked(replies@, made, Seq::<WorkerDirectoryIdentity>::empty());
    if let WorkerStep::Next(seen) = look {
        let found = worker_outcome::failure_look(*facts, replies@, made)->Next_0;
        lemma_stands_at(root@, made[0].target);
        assert(worker_outcome::made_observations(root@, made, found)[0] == seen@);
    }
}

// ---------------------------------------------------------------------------
// Handing over
// ---------------------------------------------------------------------------

/// A directory is bound only after another look at it, with what was observed of it, and
/// released only once it is bound; what the three steps gave is what comes out.
pub proof fn directories_are_bound_between_look_and_release<Lease, Value, BindingError, R, B, T>(
    creation: WorkerDirectoryNodeCreation<Lease>,
    reverify: R,
    bind: B,
    retire: T,
    result: Result<WorkerDirectoryBound<Value>, WorkerDirectoryBindingError<BindingError>>,
) where
    R: FnOnce(&Lease, &WorkerDirectoryNodeObservation) -> Result<(), PlatformError>,
    B: for<'a>FnOnce(VerifiedWorkerDirectoryNodeBinding<'a>) -> Result<Value, BindingError>,
    T: FnOnce(&Lease) -> Result<(), PlatformError>,

    requires
        call_ensures(
            WorkerDirectoryNodeCreation::<Lease>::bind_after_reverify::<
                Value,
                BindingError,
                R,
                B,
                T,
            >,
            (creation, reverify, bind, retire),
            result,
        ),
    ensures
        result matches Err(WorkerDirectoryBindingError::Reverification(error)) ==> call_ensures(
            reverify,
            (&creation.lease, &creation.observation),
            Err(error),
        ),
        !(result matches Err(WorkerDirectoryBindingError::Reverification(_))) ==> call_ensures(
            reverify,
            (&creation.lease, &creation.observation),
            Ok(()),
        ) && exists|binding: VerifiedWorkerDirectoryNodeBinding, outcome: Result<Value, BindingError>|
            #[trigger] call_ensures(bind, (binding,), outcome) && binding.observed()
                == creation.observation@ && match result {
                Err(WorkerDirectoryBindingError::Binding(error)) => outcome == Err::<Value, _>(
                    error,
                ),
                Ok(WorkerDirectoryBound::Bound(value)) => outcome == Ok::<_, BindingError>(value),
                Ok(WorkerDirectoryBound::BoundWithRetirementFailure { value, .. }) => outcome
                    == Ok::<_, BindingError>(value),
                _ => false,
            },
        result matches Ok(WorkerDirectoryBound::Bound(_)) ==> call_ensures(
            retire,
            (&creation.lease,),
            Ok(()),
        ),
        result matches Ok(WorkerDirectoryBound::BoundWithRetirementFailure { error, .. })
            ==> call_ensures(retire, (&creation.lease,), Err(error)),
{
}

/// A layout is bound only after another look at it, with what was observed of it, and
/// released only once it is bound; it counts as bound only once it is released.
pub proof fn layouts_are_bound_between_look_and_release<Lease, Value, BindingError, R, B, T>(
    creation: WorkerDirectoryCreation<Lease>,
    reverify: R,
    bind: B,
    retire: T,
    result: Result<Value, WorkerDirectoryBindingError<BindingError>>,
) where
    R: FnOnce(&Lease, &[WorkerDirectoryNodeObservation; 6]) -> Result<(), PlatformError>,
    B: for<'a>FnOnce(VerifiedWorkerDirectoryBinding<'a>) -> Result<Value, BindingError>,
    T: FnOnce(&Lease) -> Result<(), PlatformError>,

    requires
        call_ensures(
            WorkerDirectoryCreation::<Lease>::bind_after_reverify::<Value, BindingError, R, B, T>,
            (creation, reverify, bind, retire),
            result,
        ),
    ensures
        result matches Err(WorkerDirectoryBindingError::Reverification(error)) ==> call_ensures(
            reverify,
            (&creation.lease, &creation.nodes),
            Err(error),
        ),
        !(result matches Err(WorkerDirectoryBindingError::Reverification(_))) ==> call_ensures(
            reverify,
            (&creation.lease, &creation.nodes),
            Ok(()),
        ) && exists|binding: VerifiedWorkerDirectoryBinding, outcome: Result<Value, BindingError>|
            #[trigger] call_ensures(bind, (binding,), outcome) && binding.observed()
                == evidence::observations_model(creation.nodes@) && match result {
                Err(WorkerDirectoryBindingError::Binding(error)) => outcome == Err::<Value, _>(
                    error,
                ),
                Ok(value) => outcome == Ok::<_, BindingError>(value),
                _ => outcome is Ok,
            },
        result is Ok ==> call_ensures(retire, (&creation.lease,), Ok(())),
        result matches Err(WorkerDirectoryBindingError::AuthorityRetirement(error))
            ==> call_ensures(retire, (&creation.lease,), Err(error)),
{
}

/// What was made before a failure is bound only after another look at it, with what was
/// observed of it; where that fails it stays held, and so does the failure itself.
pub proof fn failures_are_bound_after_a_look<Lease, Value, BindingError, R, B, T>(
    failure: WorkerDirectoryNodeCreationError<Lease>,
    reverify: R,
    bind: B,
    retire: T,
    result: Result<
        WorkerDirectoryNodeFailureBound<Value>,
        WorkerDirectoryNodeFailureBindingError<Lease, BindingError>,
    >,
) where
    R: FnOnce(&WorkerDirectoryFailureEvidence<Lease>) -> Result<
        WorkerDirectoryNodeObservation,
        PlatformError,
    >,
    B: for<'a>FnOnce(VerifiedWorkerDirectoryNodeFailureBinding<'a>) -> Result<
        Value,
        BindingError,
    >,
    T: FnOnce(&WorkerDirectoryFailureEvidence<Lease>) -> Result<(), PlatformError>,

    requires
        call_ensures(
            WorkerDirectoryNodeCreationError::<
                Lease,
            >::bind_retained_creation_evidence_after_reverify::<Value, BindingError, R, B, T>,
            (failure, reverify, bind, retire),
            result,
        ),
    ensures
        failure is Native <==> (result matches Err(
            WorkerDirectoryNodeFailureBindingError::NoRetainedEvidence { .. },
        )),
        result matches Err(WorkerDirectoryNodeFailureBindingError::NoRetainedEvidence { error })
            ==> error == failure,
        result matches Err(
            WorkerDirectoryNodeFailureBindingError::Reverification { evidence, error },
        ) ==> evidence == failure && call_ensures(
            reverify,
            (&failure->Retained_evidence,),
            Err(error),
        ),
        result matches Err(WorkerDirectoryNodeFailureBindingError::Binding { evidence, .. })
            ==> evidence == failure,
        failure is Retained && !(result matches Err(
            WorkerDirectoryNodeFailureBindingError::Reverification { .. },
        )) ==> exists|
            seen: WorkerDirectoryNodeObservation,
            binding: VerifiedWorkerDirectoryNodeFailureBinding,
            outcome: Result<Value, BindingError>,
        |
            #![trigger call_ensures(reverify, (&failure->Retained_evidence,), Ok(seen)), call_ensures(bind, (binding,), outcome)]
            call_ensures(reverify, (&failure->Retained_evidence,), Ok(seen)) && call_ensures(
                bind,
                (binding,),
                outcome,
            ) && binding.observed() == seen@ && match result {
                Err(WorkerDirectoryNodeFailureBindingError::Binding { error, .. }) => outcome
                    == Err::<Value, _>(error),
                Ok(WorkerDirectoryNodeFailureBound::Bound { value, .. }) => outcome == Ok::<
                    _,
                    BindingError,
                >(value),
                Ok(WorkerDirectoryNodeFailureBound::BoundWithRetirementFailure { value, .. }) =>
                    outcome == Ok::<_, BindingError>(value),
                _ => false,
            },
        result matches Ok(WorkerDirectoryNodeFailureBound::Bound { primary, .. }) ==> primary
            == failure->primary && call_ensures(retire, (&failure->Retained_evidence,), Ok(())),
        result matches Ok(
            WorkerDirectoryNodeFailureBound::BoundWithRetirementFailure { primary, error, .. },
        ) ==> primary == failure->primary && call_ensures(
            retire,
            (&failure->Retained_evidence,),
            Err(error),
        ),
{
}

/// What was made of a layout before a failure is bound only after another look at it, with
/// what was observed of it.
pub proof fn failures_of_layouts_are_bound_after_a_look<Lease, Value, BindingError, R, B>(
    failure: &WorkerDirectoryCreationError<Lease>,
    reverify: R,
    bind: B,
    result: Result<Value, WorkerDirectoryFailureBindingError<BindingError>>,
) where
    R: FnOnce(&WorkerDirectoryFailureEvidence<Lease>) -> Result<
        Vec<WorkerDirectoryNodeObservation>,
        PlatformError,
    >,
    B: for<'a>FnOnce(VerifiedWorkerDirectoryFailureBinding<'a>) -> Result<Value, BindingError>,

    requires
        call_ensures(
            WorkerDirectoryCreationError::<
                Lease,
            >::bind_retained_creation_evidence_after_reverify::<Value, BindingError, R, B>,
            (failure, reverify, bind),
            result,
        ),
    ensures
        *failure is Native <==> (result matches Err(
            WorkerDirectoryFailureBindingError::NoRetainedEvidence,
        )),
        result matches Err(WorkerDirectoryFailureBindingError::Reverification(error))
            ==> call_ensures(
            reverify,
            (&failure->RetainedWindowsEvidence_evidence,),
            Err(error),
        ),
        *failure is RetainedWindowsEvidence && !(result matches Err(
            WorkerDirectoryFailureBindingError::Reverification(_),
        )) ==> exists|
            seen: Vec<WorkerDirectoryNodeObservation>,
            binding: VerifiedWorkerDirectoryFailureBinding,
            outcome: Result<Value, BindingError>,
        |
            #![trigger call_ensures(reverify, (&failure->RetainedWindowsEvidence_evidence,), Ok(seen)), call_ensures(bind, (binding,), outcome)]
            call_ensures(reverify, (&failure->RetainedWindowsEvidence_evidence,), Ok(seen))
                && call_ensures(bind, (binding,), outcome) && binding.observed()
                == evidence::observations_model(seen@) && match result {
                Err(WorkerDirectoryFailureBindingError::Binding(error)) => outcome == Err::<
                    Value,
                    _,
                >(error),
                Ok(value) => outcome == Ok::<_, BindingError>(value),
                _ => false,
            },
{
}

} // verus!
