//! What a change comes to, and the look at what it made before that is handed
//! over.

use crate::error;
use crate::error::{permission_denied, PlatformError};
use crate::evidence;
use crate::evidence::{
    WorkerDirectoryCreation, WorkerDirectoryCreationError, WorkerDirectoryFailureEvidence,
    WorkerDirectoryNodeCreation, WorkerDirectoryNodeCreationError,
};
use crate::layout::{PathModel, WorkerPath};
use crate::layout_mutation::{
    CreatedWorkerDirectoryEvidence, NodeRecord, WorkerMutationEvidence, CHILD_COUNT,
};
use crate::node_mutation;
use crate::node_mutation::{worker_target_path, WorkerNodeMutationEvidence};
use crate::privilege::{PrivilegeError, WindowsPrivilegedWorkerMutationResolution};
use crate::worker_ops;
use crate::worker_ops::{
    ask, reverify_retained_created_worker_directory, validate_windows_worker_lock_anchor_identity,
    ObservationModel, RetainedCreatedWorkerDirectory, WorkerAction, WorkerDirectoryIdentity,
    WorkerDirectoryNodeDisposition, WorkerDirectoryNodeObservation, WorkerReply, WorkerStep,
    REVERIFY_OPERATIONS,
};
use vstd::prelude::*;

verus! {

/// What is observed of a directory of a layout.
pub open spec fn observation_of(root: PathModel, record: NodeRecord) -> ObservationModel {
    ObservationModel {
        path: node_mutation::target_path(root, record.target),
        disposition: record.disposition,
        identity: record.identity,
    }
}

fn observe(root: &WorkerPath, record: &NodeRecord) -> (observation: WorkerDirectoryNodeObservation)
    ensures
        observation@ == observation_of(root@, *record),
{
    WorkerDirectoryNodeObservation::new(
        worker_target_path(root, record.target),
        record.disposition,
        record.identity,
    )
}

// ---------------------------------------------------------------------------
// One directory
// ---------------------------------------------------------------------------

/// What keeps a directory locked that was made, and the directory.
#[derive(Debug)]
pub struct WorkerDirectoryNodeLease<Lease> {
    pub lease: Lease,
    pub created: RetainedCreatedWorkerDirectory,
}

/// What came of making a directory.
#[derive(Debug)]
pub enum WorkerDirectoryNodeCreateOutcome<Lease> {
    Existing,
    Created(WorkerDirectoryNodeCreation<WorkerDirectoryNodeLease<Lease>>),
}

/// What a change made.
pub open spec fn node_created(
    evidence: WorkerNodeMutationEvidence,
) -> CreatedWorkerDirectoryEvidence {
    match evidence {
        WorkerNodeMutationEvidence::Complete { record, created } => created,
        WorkerNodeMutationEvidence::Partial { created } => created,
    }
}

/// A failure that holds what was made, where anything was.
pub open spec fn node_failure<Lease>(
    failure: PrivilegeError,
    created: CreatedWorkerDirectoryEvidence,
    lease: Lease,
) -> WorkerDirectoryNodeCreationError<Lease> {
    if created.created@.len() == 0 {
        WorkerDirectoryNodeCreationError::Native { error: failure }
    } else {
        WorkerDirectoryNodeCreationError::Retained {
            primary: failure,
            evidence: WorkerDirectoryFailureEvidence { created, lease },
        }
    }
}

impl WorkerNodeMutationEvidence {
    /// What was made, for a failure.
    pub fn into_failure<Lease>(self, lease: Lease) -> (evidence: WorkerDirectoryFailureEvidence<
        Lease,
    >)
        ensures
            evidence == (WorkerDirectoryFailureEvidence { created: node_created(self), lease }),
    {
        match self {
            WorkerNodeMutationEvidence::Complete { record: _, created } => {
                WorkerDirectoryFailureEvidence { created, lease }
            },
            WorkerNodeMutationEvidence::Partial { created } => {
                WorkerDirectoryFailureEvidence { created, lease }
            },
        }
    }
}

fn node_failed<Lease>(failure: PrivilegeError, evidence: WorkerNodeMutationEvidence, lease: Lease) -> (error:
    WorkerDirectoryNodeCreationError<Lease>)
    ensures
        error == node_failure(failure, node_created(evidence), lease),
{
    let evidence = evidence.into_failure(lease);
    if evidence.retained_count() == 0 {
        WorkerDirectoryNodeCreationError::native(failure)
    } else {
        WorkerDirectoryNodeCreationError::with_retained_evidence(failure, evidence)
    }
}

/// What a change to one directory comes to: the directory was there, or was made
/// and is handed over, or whatever was made is held by the failure.
pub open spec fn node_settled<Lease>(
    resolution: WindowsPrivilegedWorkerMutationResolution<WorkerNodeMutationEvidence>,
    root: PathModel,
    lease: Lease,
    result: Result<
        WorkerDirectoryNodeCreateOutcome<Lease>,
        WorkerDirectoryNodeCreationError<Lease>,
    >,
) -> bool {
    match resolution {
        WindowsPrivilegedWorkerMutationResolution::Success(
            WorkerNodeMutationEvidence::Complete { record, created },
        ) => if record.disposition == WorkerDirectoryNodeDisposition::Existing {
            result == Ok::<_, WorkerDirectoryNodeCreationError<Lease>>(
                WorkerDirectoryNodeCreateOutcome::<Lease>::Existing,
            )
        } else if created.created@.len() != 1 {
            result == Err::<WorkerDirectoryNodeCreateOutcome<Lease>, _>(
                WorkerDirectoryNodeCreationError::Retained {
                    primary: PrivilegeError::Single(
                        error::denied(
                            "successful worker node mutation lacks exact native creation authority",
                        ),
                    ),
                    evidence: WorkerDirectoryFailureEvidence { created, lease },
                },
            )
        } else {
            result matches Ok(WorkerDirectoryNodeCreateOutcome::Created(creation))
                && creation.observation@ == observation_of(root, record) && creation.lease == (
            WorkerDirectoryNodeLease { lease, created: created.created@[0] })
        },
        WindowsPrivilegedWorkerMutationResolution::Success(_) => false,
        WindowsPrivilegedWorkerMutationResolution::OperationFailure { error, evidence } =>
            result == Err::<WorkerDirectoryNodeCreateOutcome<Lease>, _>(
            node_failure(PrivilegeError::Single(error), node_created(evidence), lease),
        ),
        WindowsPrivilegedWorkerMutationResolution::Failure {
            operation_error,
            cleanup_error,
            evidence,
        } => result == Err::<WorkerDirectoryNodeCreateOutcome<Lease>, _>(
            node_failure(cleanup_error, node_created(evidence), lease),
        ),
    }
}

/// Settles what came of making a directory below `root`.
pub fn finish_worker_directory_node_mutation<Lease>(
    resolution: WindowsPrivilegedWorkerMutationResolution<WorkerNodeMutationEvidence>,
    root: &WorkerPath,
    lease: Lease,
) -> (result: Result<
    WorkerDirectoryNodeCreateOutcome<Lease>,
    WorkerDirectoryNodeCreationError<Lease>,
>)
    requires
        resolution matches WindowsPrivilegedWorkerMutationResolution::Success(evidence) ==> evidence
            is Complete,
    ensures
        node_settled(resolution, root@, lease, result),
{
    match resolution {
        WindowsPrivilegedWorkerMutationResolution::Success(evidence) => match evidence {
            WorkerNodeMutationEvidence::Complete { record, created } => {
                match record.disposition {
                    WorkerDirectoryNodeDisposition::Existing => {
                        return Ok(WorkerDirectoryNodeCreateOutcome::Existing);
                    },
                    WorkerDirectoryNodeDisposition::Created => {},
                }
                if created.created.len() != 1 {
                    return Err(
                        WorkerDirectoryNodeCreationError::with_retained_evidence(
                            PrivilegeError::Single(
                                permission_denied(
                                    "successful worker node mutation lacks exact native creation authority",
                                ),
                            ),
                            WorkerDirectoryFailureEvidence { created, lease },
                        ),
                    );
                }
                let made = created.created[0];
                Ok(
                    WorkerDirectoryNodeCreateOutcome::Created(
                        WorkerDirectoryNodeCreation::new(
                            observe(root, &record),
                            WorkerDirectoryNodeLease { lease, created: made },
                        ),
                    ),
                )
            },
            WorkerNodeMutationEvidence::Partial { .. } => unreached(),
        },
        WindowsPrivilegedWorkerMutationResolution::OperationFailure { error, evidence } => Err(
            node_failed(PrivilegeError::Single(error), evidence, lease),
        ),
        WindowsPrivilegedWorkerMutationResolution::Failure {
            operation_error: _,
            cleanup_error,
            evidence,
        } => Err(node_failed(cleanup_error, evidence, lease)),
    }
}

// ---------------------------------------------------------------------------
// A whole layout
// ---------------------------------------------------------------------------

/// What keeps a layout locked, and its directories: the root, and those in it.
#[derive(Debug)]
pub struct WorkerDirectoryLease<Lease> {
    pub lease: Lease,
    pub nodes: Vec<NodeRecord>,
}

/// What a change made.
pub open spec fn layout_created(evidence: WorkerMutationEvidence) -> CreatedWorkerDirectoryEvidence {
    match evidence {
        WorkerMutationEvidence::Complete { root, children, created } => created,
        WorkerMutationEvidence::Partial { created } => created,
    }
}

/// Whether a change made a whole layout.
pub open spec fn is_whole(evidence: WorkerMutationEvidence) -> bool {
    evidence matches WorkerMutationEvidence::Complete { root, children, created }
        && children@.len() == CHILD_COUNT
}

impl WorkerMutationEvidence {
    /// What was made, for a failure.
    pub fn into_failure<Lease>(self, lease: Lease) -> (evidence: WorkerDirectoryFailureEvidence<
        Lease,
    >)
        ensures
            evidence == (WorkerDirectoryFailureEvidence { created: layout_created(self), lease }),
    {
        match self {
            WorkerMutationEvidence::Complete { root: _, children: _, created } => {
                WorkerDirectoryFailureEvidence { created, lease }
            },
            WorkerMutationEvidence::Partial { created } => {
                WorkerDirectoryFailureEvidence { created, lease }
            },
        }
    }
}

/// The directories of a layout with a root.
pub open spec fn all_records(root: NodeRecord, children: Seq<NodeRecord>) -> Seq<NodeRecord> {
    seq![root] + children
}

fn into_creation<Lease>(
    root_path: &WorkerPath,
    root: NodeRecord,
    children: Vec<NodeRecord>,
    lease: Lease,
) -> (creation: WorkerDirectoryCreation<WorkerDirectoryLease<Lease>>)
    requires
        children@.len() == CHILD_COUNT,
    ensures
        evidence::observations_model(creation.nodes@) == all_records(root, children@).map_values(
            |record: NodeRecord| observation_of(root_path@, record),
        ),
        creation.lease.lease == lease,
        creation.lease.nodes@ == all_records(root, children@),
{
    let nodes = (
        observe(root_path, &children[0]),
        observe(root_path, &children[1]),
        observe(root_path, &children[2]),
        observe(root_path, &children[3]),
        observe(root_path, &children[4]),
    );
    let mut records: Vec<NodeRecord> = vec![root];
    let mut rest = children;
    records.append(&mut rest);
    assert(records@ =~= all_records(root, children@));
    let creation = WorkerDirectoryCreation::new(
        observe(root_path, &root),
        nodes,
        WorkerDirectoryLease { lease, nodes: records },
    );
    assert(evidence::observations_model(creation.nodes@) =~= all_records(
        root,
        children@,
    ).map_values(|record: NodeRecord| observation_of(root_path@, record)));
    creation
}

/// What making a layout comes to: it is handed over, or whatever was made is held
/// by the failure.
pub open spec fn layout_settled<Lease>(
    resolution: WindowsPrivilegedWorkerMutationResolution<WorkerMutationEvidence>,
    root_path: PathModel,
    lease: Lease,
    result: Result<
        WorkerDirectoryCreation<WorkerDirectoryLease<Lease>>,
        WorkerDirectoryCreationError<Lease>,
    >,
) -> bool {
    match resolution {
        WindowsPrivilegedWorkerMutationResolution::Success(
            WorkerMutationEvidence::Complete { root, children, created },
        ) => result matches Ok(creation) && evidence::observations_model(creation.nodes@)
            == all_records(root, children@).map_values(
            |record: NodeRecord| observation_of(root_path, record),
        ) && creation.lease.lease == lease && creation.lease.nodes@ == all_records(
            root,
            children@,
        ),
        WindowsPrivilegedWorkerMutationResolution::Success(_) => false,
        WindowsPrivilegedWorkerMutationResolution::OperationFailure { error, evidence } =>
            result == Err::<WorkerDirectoryCreation<WorkerDirectoryLease<Lease>>, _>(
            WorkerDirectoryCreationError::RetainedWindowsEvidence {
                primary: PrivilegeError::Single(error),
                operation_error: None,
                privilege_cleanup_failed: false,
                evidence: WorkerDirectoryFailureEvidence {
                    created: layout_created(evidence),
                    lease,
                },
            },
        ),
        WindowsPrivilegedWorkerMutationResolution::Failure {
            operation_error,
            cleanup_error,
            evidence,
        } => result == Err::<WorkerDirectoryCreation<WorkerDirectoryLease<Lease>>, _>(
            WorkerDirectoryCreationError::RetainedWindowsEvidence {
                primary: cleanup_error,
                operation_error,
                privilege_cleanup_failed: true,
                evidence: WorkerDirectoryFailureEvidence {
                    created: layout_created(evidence),
                    lease,
                },
            },
        ),
    }
}

/// Settles what came of making a layout with the root `root_path`.
pub fn finish_worker_directory_mutation<Lease>(
    resolution: WindowsPrivilegedWorkerMutationResolution<WorkerMutationEvidence>,
    root_path: &WorkerPath,
    lease: Lease,
) -> (result: Result<
    WorkerDirectoryCreation<WorkerDirectoryLease<Lease>>,
    WorkerDirectoryCreationError<Lease>,
>)
    requires
        resolution matches WindowsPrivilegedWorkerMutationResolution::Success(evidence) ==> is_whole(
            evidence,
        ),
    ensures
        layout_settled(resolution, root_path@, lease, result),
{
    match resolution {
        WindowsPrivilegedWorkerMutationResolution::Success(evidence) => match evidence {
            WorkerMutationEvidence::Complete { root, children, created: _ } => Ok(
                into_creation(root_path, root, children, lease),
            ),
            WorkerMutationEvidence::Partial { .. } => unreached(),
        },
        WindowsPrivilegedWorkerMutationResolution::OperationFailure { error, evidence } => Err(
            WorkerDirectoryCreationError::with_windows_retained_evidence(
                PrivilegeError::Single(error),
                None,
                false,
                evidence.into_failure(lease),
            ),
        ),
        WindowsPrivilegedWorkerMutationResolution::Failure {
            operation_error,
            cleanup_error,
            evidence,
        } => Err(
            WorkerDirectoryCreationError::with_windows_retained_evidence(
                cleanup_error,
                operation_error,
                true,
                evidence.into_failure(lease),
            ),
        ),
    }
}

// ---------------------------------------------------------------------------
// Another look
// ---------------------------------------------------------------------------

/// What is found of the lock's own conditions: whether the worker's principal is
/// still the planned one, which directory was locked, and which directory its
/// path leads to now.
#[derive(Clone, Copy, Debug)]
pub struct LockFacts {
    pub principal: Result<(), PlatformError>,
    pub anchor: WorkerDirectoryIdentity,
    pub reopened: Result<WorkerDirectoryIdentity, PlatformError>,
}

/// Whether the lock still holds what it held.
pub open spec fn lock_holds(facts: LockFacts) -> Result<(), PlatformError> {
    match facts.principal {
        Err(failure) => Err(failure),
        Ok(()) => match facts.reopened {
            Err(failure) => Err(failure),
            Ok(identity) => worker_ops::same_anchor(facts.anchor, identity),
        },
    }
}

/// Looks whether the lock still holds what it held.
pub fn reverify_path_identity(facts: &LockFacts) -> (result: Result<(), PlatformError>)
    ensures
        result == lock_holds(*facts),
{
    match facts.principal {
        Ok(()) => {},
        Err(failure) => {
            return Err(failure);
        },
    }
    match facts.reopened {
        Ok(identity) => validate_windows_worker_lock_anchor_identity(facts.anchor, identity),
        Err(failure) => Err(failure),
    }
}

/// The number of operations of a look at one directory of a layout.
pub const LEASE_OPERATIONS: usize = 3;

/// The look at the directories of a layout from number `index` on: each has a
/// worker's rules, is the directory that was observed, and its path leads to it.
pub open spec fn lease_looked(
    replies: Seq<WorkerReply>,
    at: nat,
    index: nat,
    records: Seq<NodeRecord>,
    identities: Seq<WorkerDirectoryIdentity>,
) -> WorkerStep<()>
    decreases records.len() - index,
{
    if index >= records.len() {
        WorkerStep::Next(())
    } else {
        let record = records[index as int];
        let directory = record.directory;
        match worker_ops::asked(replies, at, WorkerAction::VerifyCanonical { directory }) {
            WorkerStep::Ask(action) => WorkerStep::Ask(action),
            WorkerStep::Fail(failure) => WorkerStep::Fail(failure),
            WorkerStep::Next(_) => match worker_ops::asked(
                replies,
                at + 1,
                WorkerAction::Identify { directory },
            ) {
                WorkerStep::Ask(action) => WorkerStep::Ask(action),
                WorkerStep::Fail(failure) => WorkerStep::Fail(failure),
                WorkerStep::Next(identity) => if identity != identities[index as int] {
                    WorkerStep::Fail(
                        error::denied("retained worker directory identity changed before release"),
                    )
                } else {
                    match worker_ops::asked(
                        replies,
                        at + 2,
                        WorkerAction::OpenPath { target: record.target },
                    ) {
                        WorkerStep::Ask(action) => WorkerStep::Ask(action),
                        WorkerStep::Fail(failure) => WorkerStep::Fail(failure),
                        WorkerStep::Next(reopened) => if reopened != identities[index as int] {
                            WorkerStep::Fail(
                                error::denied(
                                    "worker directory path changed before retained evidence release",
                                ),
                            )
                        } else {
                            lease_looked(
                                replies,
                                at + LEASE_OPERATIONS as nat,
                                index + 1,
                                records,
                                identities,
                            )
                        },
                    }
                },
            },
        }
    }
}

/// The identities that were observed.
pub open spec fn identities_of(nodes: Seq<WorkerDirectoryNodeObservation>) -> Seq<
    WorkerDirectoryIdentity,
> {
    nodes.map_values(|node: WorkerDirectoryNodeObservation| node@.identity)
}

/// Looks whether the directories of a layout are still what and where they were.
pub fn reverify_worker_directory_lease(
    facts: &LockFacts,
    records: &[NodeRecord],
    observations: &[WorkerDirectoryNodeObservation],
    replies: &[WorkerReply],
) -> (step: WorkerStep<()>)
    requires
        records@.len() == observations@.len(),
    ensures
        step == (match lock_holds(*facts) {
            Err(failure) => WorkerStep::Fail(failure),
            Ok(()) => lease_looked(replies@, 0, 0, records@, identities_of(observations@)),
        }),
{
    match reverify_path_identity(facts) {
        Ok(()) => {},
        Err(failure) => {
            return WorkerStep::Fail(failure);
        },
    }
    let ghost identities = identities_of(observations@);
    let ghost whole = lease_looked(replies@, 0, 0, records@, identities);
    let mut at: usize = 0;
    for index in 0..records.len()
        invariant
            records@.len() == observations@.len(),
            identities == identities_of(observations@),
            at <= replies@.len(),
            lock_holds(*facts) is Ok,
            whole == lease_looked(replies@, 0, 0, records@, identities),
            whole == lease_looked(replies@, at as nat, index as nat, records@, identities),
    {
        let record = records[index];
        let directory = record.directory;
        let expected = observations[index].identity();
        assert(expected == identities[index as int]);
        match ask(replies, at, WorkerAction::VerifyCanonical { directory }) {
            WorkerStep::Ask(action) => {
                return WorkerStep::Ask(action);
            },
            WorkerStep::Fail(failure) => {
                return WorkerStep::Fail(failure);
            },
            WorkerStep::Next(_) => {},
        }
        let identity = match ask(replies, at + 1, WorkerAction::Identify { directory }) {
            WorkerStep::Ask(action) => {
                return WorkerStep::Ask(action);
            },
            WorkerStep::Fail(failure) => {
                return WorkerStep::Fail(failure);
            },
            WorkerStep::Next(identity) => identity,
        };
        if !identity.same_as(&expected) {
            return WorkerStep::Fail(
                permission_denied("retained worker directory identity changed before release"),
            );
        }
        let reopened = match ask(
            replies,
            at + 2,
            WorkerAction::OpenPath { target: record.target },
        ) {
            WorkerStep::Ask(action) => {
                return WorkerStep::Ask(action);
            },
            WorkerStep::Fail(failure) => {
                return WorkerStep::Fail(failure);
            },
            WorkerStep::Next(reopened) => reopened,
        };
        if !reopened.same_as(&expected) {
            return WorkerStep::Fail(
                permission_denied("worker directory path changed before retained evidence release"),
            );
        }
        at = at + LEASE_OPERATIONS;
    }
    WorkerStep::Next(())
}

/// The look at directories that were made before a failure, from number `index`
/// on, after those with the identities `found`.
pub open spec fn failure_looked(
    replies: Seq<WorkerReply>,
    at: nat,
    created: Seq<RetainedCreatedWorkerDirectory>,
    found: Seq<WorkerDirectoryIdentity>,
) -> WorkerStep<Seq<WorkerDirectoryIdentity>>
    decreases created.len() - found.len(),
{
    if found.len() >= created.len() {
        WorkerStep::Next(found)
    } else {
        match worker_ops::reverified(replies, at, created[found.len() as int]) {
            WorkerStep::Ask(action) => WorkerStep::Ask(action),
            WorkerStep::Fail(failure) => WorkerStep::Fail(failure),
            WorkerStep::Next(identity) => failure_looked(
                replies,
                at + REVERIFY_OPERATIONS as nat,
                created,
                found.push(identity),
            ),
        }
    }
}

/// What is observed of directories that were made before a failure.
pub open spec fn made_observations(
    root: PathModel,
    created: Seq<RetainedCreatedWorkerDirectory>,
    identities: Seq<WorkerDirectoryIdentity>,
) -> Seq<ObservationModel> {
    Seq::new(
        created.len(),
        |i: int|
            ObservationModel {
                path: node_mutation::target_path(root, created[i].target),
                disposition: WorkerDirectoryNodeDisposition::Created,
                identity: identities[i],
            },
    )
}

/// The look at everything that was made before a failure.
pub open spec fn failure_look(
    facts: LockFacts,
    replies: Seq<WorkerReply>,
    created: Seq<RetainedCreatedWorkerDirectory>,
) -> WorkerStep<Seq<WorkerDirectoryIdentity>> {
    match lock_holds(facts) {
        Err(failure) => WorkerStep::Fail(failure),
        Ok(()) => failure_looked(replies, 0, created, Seq::<WorkerDirectoryIdentity>::empty()),
    }
}

/// Looks whether what was made before a failure is still what and where it was.
pub fn reverify_worker_directory_failure_evidence(
    facts: &LockFacts,
    root: &WorkerPath,
    created: &CreatedWorkerDirectoryEvidence,
    replies: &[WorkerReply],
) -> (step: WorkerStep<Vec<WorkerDirectoryNodeObservation>>)
    ensures
        match failure_look(*facts, replies@, created.created@) {
            WorkerStep::Ask(action) => step == WorkerStep::<
                Vec<WorkerDirectoryNodeObservation>,
            >::Ask(action),
            WorkerStep::Fail(failure) => step == WorkerStep::<
                Vec<WorkerDirectoryNodeObservation>,
            >::Fail(failure),
            WorkerStep::Next(identities) => step matches WorkerStep::Next(observations)
                && evidence::observations_model(observations@) == made_observations(
                root@,
                created.created@,
                identities,
            ),
        },
{
    match reverify_path_identity(facts) {
        Ok(()) => {},
        Err(failure) => {
            return WorkerStep::Fail(failure);
        },
    }
    let mut observations: Vec<WorkerDirectoryNodeObservation> = Vec::new();
    let mut at: usize = 0;
    let ghost mut found = Seq::<WorkerDirectoryIdentity>::empty();
    let ghost whole = failure_looked(
        replies@,
        0,
        created.created@,
        Seq::<WorkerDirectoryIdentity>::empty(),
    );
    for index in 0..created.created.len()
        invariant
            lock_holds(*facts) is Ok,
            at <= replies@.len(),
            found.len() == index,
            observations@.len() == index,
            forall|k: int|
                0 <= k < index ==> (#[trigger] observations@[k])@ == (ObservationModel {
                    path: node_mutation::target_path(root@, created.created@[k].target),
                    disposition: WorkerDirectoryNodeDisposition::Created,
                    identity: found[k],
                }),
            whole == failure_looked(
                replies@,
                0,
                created.created@,
                Seq::<WorkerDirectoryIdentity>::empty(),
            ),
            whole == failure_looked(replies@, at as nat, created.created@, found),
    {
        let made = &created.created[index];
        let identity = match reverify_retained_created_worker_directory(replies, at, made) {
            WorkerStep::Ask(action) => {
                return WorkerStep::Ask(action);
            },
            WorkerStep::Fail(failure) => {
                return WorkerStep::Fail(failure);
            },
            WorkerStep::Next(identity) => identity,
        };
        observations.push(
            WorkerDirectoryNodeObservation::new(
                worker_target_path(root, made.target),
                WorkerDirectoryNodeDisposition::Created,
                identity,
            ),
        );
        proof {
            found = found.push(identity);
        }
        at = at + REVERIFY_OPERATIONS;
    }
    assert(evidence::observations_model(observations@) =~= made_observations(
        root@,
        created.created@,
        found,
    ));
    WorkerStep::Next(observations)
}

/// Looks at the one directory that was made before a failure.
pub fn reverify_worker_directory_node_failure_evidence(
    facts: &LockFacts,
    root: &WorkerPath,
    created: &CreatedWorkerDirectoryEvidence,
    replies: &[WorkerReply],
) -> (step: WorkerStep<WorkerDirectoryNodeObservation>)
    ensures
        match failure_look(*facts, replies@, created.created@) {
            WorkerStep::Ask(action) => step == WorkerStep::<WorkerDirectoryNodeObservation>::Ask(
                action,
            ),
            WorkerStep::Fail(failure) => step == WorkerStep::<WorkerDirectoryNodeObservation>::Fail(
                failure,
            ),
            WorkerStep::Next(identities) => if created.created@.len() != 1 {
                step == WorkerStep::<WorkerDirectoryNodeObservation>::Fail(
                    error::denied(
                        "worker node failure evidence does not identify exactly one creation",
                    ),
                )
            } else {
                step matches WorkerStep::Next(observation) && observation@ == made_observations(
                    root@,
                    created.created@,
                    identities,
                )[0]
            },
        },
{
    match reverify_worker_directory_failure_evidence(facts, root, created, replies) {
        WorkerStep::Ask(action) => WorkerStep::Ask(action),
        WorkerStep::Fail(failure) => WorkerStep::Fail(failure),
        WorkerStep::Next(observations) => {
            let ghost models = evidence::observations_model(observations@);
            let mut rest = observations;
            if rest.len() != 1 {
                assert(models.len() == created.created@.len());
                return WorkerStep::Fail(
                    permission_denied(
                        "worker node failure evidence does not identify exactly one creation",
                    ),
                );
            }
            assert(models.len() == created.created@.len());
            assert(models[0] == rest@[0]@);
            WorkerStep::Next(rest.remove(0))
        },
    }
}

/// The look at a directory that was made, before it is handed over.
pub open spec fn node_lease_look(
    facts: LockFacts,
    replies: Seq<WorkerReply>,
    created: RetainedCreatedWorkerDirectory,
    root: PathModel,
    observation: ObservationModel,
) -> WorkerStep<()> {
    match lock_holds(facts) {
        Err(failure) => WorkerStep::Fail(failure),
        Ok(()) => match worker_ops::reverified(replies, 0, created) {
            WorkerStep::Ask(action) => WorkerStep::Ask(action),
            WorkerStep::Fail(failure) => WorkerStep::Fail(failure),
            WorkerStep::Next(identity) => if identity != observation.identity
                || node_mutation::target_path(root, created.target) != observation.path {
                WorkerStep::Fail(
                    error::denied("retained worker directory observation changed before release"),
                )
            } else {
                WorkerStep::Next(())
            },
        },
    }
}

/// Looks at a directory that was made, before it is handed over.
pub fn reverify_worker_directory_node_lease(
    facts: &LockFacts,
    created: &RetainedCreatedWorkerDirectory,
    root: &WorkerPath,
    observation: &WorkerDirectoryNodeObservation,
    replies: &[WorkerReply],
) -> (step: WorkerStep<()>)
    ensures
        step == node_lease_look(*facts, replies@, *created, root@, observation@),
{
    match reverify_path_identity(facts) {
        Ok(()) => {},
        Err(failure) => {
            return WorkerStep::Fail(failure);
        },
    }
    let identity = match reverify_retained_created_worker_directory(replies, 0, created) {
        WorkerStep::Ask(action) => {
            return WorkerStep::Ask(action);
        },
        WorkerStep::Fail(failure) => {
            return WorkerStep::Fail(failure);
        },
        WorkerStep::Next(identity) => identity,
    };
    let place = worker_target_path(root, created.target);
    if !identity.same_as(&observation.identity()) || !place.same_as(observation.path()) {
        return WorkerStep::Fail(
            permission_denied("retained worker directory observation changed before release"),
        );
    }
    WorkerStep::Next(())
}

proof fn lemma_failure_looked(
    replies: Seq<WorkerReply>,
    at: nat,
    created: Seq<RetainedCreatedWorkerDirectory>,
    found: Seq<WorkerDirectoryIdentity>,
)
    requires
        found.len() <= created.len(),
        forall|i: int|
            0 <= i < found.len() ==> ((#[trigger] created[i]).identity is Some
                ==> created[i].identity == Some(found[i])),
    ensures
        failure_looked(replies, at, created, found) matches WorkerStep::Next(identities)
            ==> identities.len() == created.len() && forall|i: int|
            0 <= i < created.len() ==> ((#[trigger] created[i]).identity is Some
                ==> created[i].identity == Some(identities[i])),
    decreases created.len() - found.len(),
{
    if found.len() < created.len() {
        let made = created[found.len() as int];
        if let WorkerStep::Next(identity) = worker_ops::reverified(replies, at, made) {
            lemma_failure_looked(
                replies,
                at + REVERIFY_OPERATIONS as nat,
                created,
                found.push(identity),
            );
        }
    }
}

/// What is handed over is what was made: where a look succeeds, each directory
/// whose identity was known is still that directory.
pub proof fn released_directories_are_unchanged(
    facts: LockFacts,
    replies: Seq<WorkerReply>,
    created: Seq<RetainedCreatedWorkerDirectory>,
)
    ensures
        failure_look(facts, replies, created) matches WorkerStep::Next(identities)
            ==> identities.len() == created.len() && forall|i: int|
            0 <= i < created.len() ==> ((#[trigger] created[i]).identity is Some
                ==> created[i].identity == Some(identities[i])),
{
    lemma_failure_looked(replies, 0, created, Seq::<WorkerDirectoryIdentity>::empty());
}

/// Releasing what is held of a layout takes nothing more: nothing but the lock
/// was kept.
pub fn retire_worker_directory_authority<Lease>(lease: &WorkerDirectoryLease<Lease>) -> (result:
    Result<(), PlatformError>)
    ensures
        result == Ok::<(), PlatformError>(()),
{
    Ok(())
}

/// Releasing what is held of a directory takes nothing more.
pub fn retire_worker_directory_node_authority<Lease>(
    lease: &WorkerDirectoryNodeLease<Lease>,
) -> (result: Result<(), PlatformError>)
    ensures
        result == Ok::<(), PlatformError>(()),
{
    Ok(())
}

/// Releasing what is held after a failure takes nothing more.
pub fn retire_worker_directory_node_failure_authority<Lease>(
    evidence: &WorkerDirectoryFailureEvidence<Lease>,
) -> (result: Result<(), PlatformError>)
    ensures
        result == Ok::<(), PlatformError>(()),
{
    Ok(())
}

} // verus!
