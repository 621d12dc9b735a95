//! What was made is handed over only after another look at it: the caller binds
//! it while it is still held, and then it is released.

use crate::error::{ErrorKind, PlatformError};
use crate::layout_mutation::CreatedWorkerDirectoryEvidence;
use crate::privilege::PrivilegeError;
use crate::text::{chars_of, string_of};
use crate::worker_ops::{
    ObservationModel, RetainedCreatedWorkerDirectory, WorkerDirectoryNodeObservation,
};
use vstd::prelude::*;

verus! {

// ---------------------------------------------------------------------------
// One directory
// ---------------------------------------------------------------------------

/// What is held of directories that were made before a failure: the list of
/// them, and what keeps them locked.
#[derive(Debug)]
pub struct WorkerDirectoryFailureEvidence<Lease> {
    pub created: CreatedWorkerDirectoryEvidence,
    pub lease: Lease,
}

/// The number of directories whose identity is not known.
pub open spec fn unresolved_of(created: Seq<RetainedCreatedWorkerDirectory>) -> nat
    decreases created.len(),
{
    if created.len() == 0 {
        0
    } else {
        unresolved_of(created.drop_last()) + if created.last().identity is None {
            1nat
        } else {
            0nat
        }
    }
}

impl<Lease> WorkerDirectoryFailureEvidence<Lease> {
    /// How many directories were made.
    pub fn retained_count(&self) -> (count: usize)
        ensures
            count == self.created.created@.len(),
    {
        self.created.created.len()
    }

    /// Of how many of them it is not known which directory they are.
    pub fn unresolved_count(&self) -> (count: usize)
        ensures
            count == unresolved_of(self.created.created@),
    {
        let mut count: usize = 0;
        for i in 0..self.created.created.len()
            invariant
                count == unresolved_of(self.created.created@.take(i as int)),
                count <= i,
        {
            assert(self.created.created@.take(i + 1).drop_last() =~= self.created.created@.take(
                i as int,
            ));
            if self.created.created[i].identity.is_none() {
                count = count + 1;
            }
        }
        assert(self.created.created@.take(self.created.created@.len() as int)
            =~= self.created.created@);
        count
    }
}

/// Why a directory was not made.
#[derive(Debug)]
pub enum WorkerDirectoryNodeCreationError<Lease> {
    Native { error: PrivilegeError },
    Retained { primary: PrivilegeError, evidence: WorkerDirectoryFailureEvidence<Lease> },
}

/// A directory that was made before a failure, after another look at it.
pub struct VerifiedWorkerDirectoryNodeFailureBinding<'authority> {
    observation: &'authority WorkerDirectoryNodeObservation,
}

impl<'authority> VerifiedWorkerDirectoryNodeFailureBinding<'authority> {
    /// What was observed.
    pub closed spec fn observed(&self) -> ObservationModel {
        self.observation@
    }

    /// What was observed.
    pub fn observation(&self) -> (observation: &WorkerDirectoryNodeObservation)
        ensures
            observation@ == self.observed(),
    {
        self.observation
    }
}

/// What was bound of a directory that was made before a failure.
#[derive(Debug)]
pub enum WorkerDirectoryNodeFailureBound<Value> {
    Bound { value: Value, primary: PrivilegeError },
    BoundWithRetirementFailure { value: Value, primary: PrivilegeError, error: PlatformError },
}

/// Why nothing was bound; what is held stays held.
#[derive(Debug)]
pub enum WorkerDirectoryNodeFailureBindingError<Lease, BindingError> {
    NoRetainedEvidence { error: WorkerDirectoryNodeCreationError<Lease> },
    Reverification { evidence: WorkerDirectoryNodeCreationError<Lease>, error: PlatformError },
    Binding { evidence: WorkerDirectoryNodeCreationError<Lease>, error: BindingError },
}

/// The number of directories that a failure accounts for.
pub open spec fn retained_by<Lease>(error: WorkerDirectoryNodeCreationError<Lease>) -> nat {
    match error {
        WorkerDirectoryNodeCreationError::Native { error } => 0,
        WorkerDirectoryNodeCreationError::Retained { primary, evidence } =>
            evidence.created.created@.len(),
    }
}

/// Whether a look at what is held gave an observation, and binding it gave
/// `outcome`.
pub open spec fn failure_bound<Lease, Value, BindingError, R, B>(
    reverify: R,
    bind: B,
    evidence: WorkerDirectoryFailureEvidence<Lease>,
    outcome: Result<Value, BindingError>,
) -> bool where
    R: FnOnce(&WorkerDirectoryFailureEvidence<Lease>) -> Result<
        WorkerDirectoryNodeObservation,
        PlatformError,
    >,
    B: for<'a>FnOnce(VerifiedWorkerDirectoryNodeFailureBinding<'a>) -> Result<
        Value,
        BindingError,
    >,
 {
    exists|
        observation: WorkerDirectoryNodeObservation,
        binding: VerifiedWorkerDirectoryNodeFailureBinding,
    |
        #![trigger call_ensures(reverify, (&evidence,), Ok(observation)), call_ensures(bind, (binding,), outcome)]
        call_ensures(reverify, (&evidence,), Ok(observation)) && binding.observed()
            == observation@ && call_ensures(bind, (binding,), outcome)
}

impl<Lease> WorkerDirectoryNodeCreationError<Lease> {
    /// A failure after which nothing is held.
    pub fn native(error: PrivilegeError) -> (failure: Self)
        ensures
            failure == (WorkerDirectoryNodeCreationError::<Lease>::Native { error }),
    {
        WorkerDirectoryNodeCreationError::Native { error }
    }

    /// A failure after which something is held.
    pub fn with_retained_evidence(
        primary: PrivilegeError,
        evidence: WorkerDirectoryFailureEvidence<Lease>,
    ) -> (failure: Self)
        ensures
            failure == (WorkerDirectoryNodeCreationError::Retained { primary, evidence }),
    {
        WorkerDirectoryNodeCreationError::Retained { primary, evidence }
    }

    /// The class of the failure.
    pub fn kind(&self) -> (kind: ErrorKind)
        ensures
            kind == (match *self {
                WorkerDirectoryNodeCreationError::Native { error } => error.spec_kind(),
                WorkerDirectoryNodeCreationError::Retained { primary, .. } => primary.spec_kind(),
            }),
    {
        match self {
            WorkerDirectoryNodeCreationError::Native { error } => error.kind(),
            WorkerDirectoryNodeCreationError::Retained { primary, .. } => primary.kind(),
        }
    }

    /// How many directories are held.
    pub fn retained_creation_evidence_count(&self) -> (count: usize)
        ensures
            count == retained_by(*self),
    {
        match self {
            WorkerDirectoryNodeCreationError::Native { .. } => 0,
            WorkerDirectoryNodeCreationError::Retained { evidence, .. } => {
                evidence.retained_count()
            },
        }
    }

    /// Of how many of them it is not known which directory they are.
    pub fn retained_unresolved_creation_evidence_count(&self) -> (count: usize)
        ensures
            count == (match *self {
                WorkerDirectoryNodeCreationError::Native { .. } => 0,
                WorkerDirectoryNodeCreationError::Retained { evidence, .. } => unresolved_of(
                    evidence.created.created@,
                ),
            }),
    {
        match self {
            WorkerDirectoryNodeCreationError::Native { .. } => 0,
            WorkerDirectoryNodeCreationError::Retained { evidence, .. } => {
                evidence.unresolved_count()
            },
        }
    }

    /// Binds what is held, after another look at it, and releases it. Where the
    /// look or the binding fails, it stays held.
    pub fn bind_retained_creation_evidence_after_reverify<Value, BindingError, R, B, T>(
        self,
        reverify: R,
        bind: B,
        retire: T,
    ) -> (result: Result<
        WorkerDirectoryNodeFailureBound<Value>,
        WorkerDirectoryNodeFailureBindingError<Lease, BindingError>,
    >) where
        R: FnOnce(&WorkerDirectoryFailureEvidence<Lease>) -> Result<
            WorkerDirectoryNodeObservation,
            PlatformError,
        >,
        B: for<'a>FnOnce(VerifiedWorkerDirectoryNodeFailureBinding<'a>) -> Result<
            Value,
            BindingError,
        >,
        T: FnOnce(&WorkerDirectoryFailureEvidence<Lease>) -> Result<(), PlatformError>,

        requires
            self matches WorkerDirectoryNodeCreationError::Retained { evidence, .. }
                ==> call_requires(reverify, (&evidence,)),
            self matches WorkerDirectoryNodeCreationError::Retained { evidence, .. } ==> (forall|
                seen: WorkerDirectoryNodeObservation,
                binding: VerifiedWorkerDirectoryNodeFailureBinding,
            |
                #![trigger call_ensures(reverify, (&evidence,), Ok(seen)), call_requires(bind, (binding,))]
                call_ensures(reverify, (&evidence,), Ok(seen)) && binding.observed() == seen@
                    ==> call_requires(bind, (binding,))),
            self matches WorkerDirectoryNodeCreationError::Retained { evidence, .. } ==> (exists|
                value: Value,
            | #[trigger]
                failure_bound(reverify, bind, evidence, Ok::<Value, BindingError>(value)))
                ==> call_requires(retire, (&evidence,)),
        ensures
            match self {
                WorkerDirectoryNodeCreationError::Native { error } => result == Err::<
                    WorkerDirectoryNodeFailureBound<Value>,
                    _,
                >(
                    WorkerDirectoryNodeFailureBindingError::<
                        Lease,
                        BindingError,
                    >::NoRetainedEvidence { error: self },
                ),
                WorkerDirectoryNodeCreationError::Retained { primary, evidence } => match result {
                    Err(WorkerDirectoryNodeFailureBindingError::NoRetainedEvidence { .. }) => false,
                    Err(
                        WorkerDirectoryNodeFailureBindingError::Reverification {
                            evidence: held,
                            error,
                        },
                    ) => held == self && call_ensures(reverify, (&evidence,), Err(error)),
                    Err(
                        WorkerDirectoryNodeFailureBindingError::Binding { evidence: held, error },
                    ) => held == self && failure_bound(
                        reverify,
                        bind,
                        evidence,
                        Err::<Value, _>(error),
                    ),
                    Ok(WorkerDirectoryNodeFailureBound::Bound { value, primary: first }) => first
                        == primary && call_ensures(retire, (&evidence,), Ok(())) && failure_bound(
                        reverify,
                        bind,
                        evidence,
                        Ok::<_, BindingError>(value),
                    ),
                    Ok(
                        WorkerDirectoryNodeFailureBound::BoundWithRetirementFailure {
                            value,
                            primary: first,
                            error,
                        },
                    ) => first == primary && call_ensures(retire, (&evidence,), Err(error))
                        && failure_bound(
                        reverify,
                        bind,
                        evidence,
                        Ok::<_, BindingError>(value),
                    ),
                },
            },
    {
        let (primary, evidence) = match self {
            WorkerDirectoryNodeCreationError::Native { error } => {
                return Err(
                    WorkerDirectoryNodeFailureBindingError::NoRetainedEvidence {
                        error: Self::native(error),
                    },
                );
            },
            WorkerDirectoryNodeCreationError::Retained { primary, evidence } => (primary, evidence),
        };
        let looked = reverify(&evidence);
        let observation = match looked {
            Ok(observation) => observation,
            Err(error) => {
                return Err(
                    WorkerDirectoryNodeFailureBindingError::Reverification {
                        evidence: Self::with_retained_evidence(primary, evidence),
                        error,
                    },
                );
            },
        };
        assert(call_ensures(
            reverify,
            (&evidence,),
            Ok::<WorkerDirectoryNodeObservation, PlatformError>(observation),
        ));
        let binding = VerifiedWorkerDirectoryNodeFailureBinding { observation: &observation };
        let outcome = bind(binding);
        assert(call_ensures(bind, (binding,), outcome));
        assert(failure_bound(reverify, bind, evidence, outcome));
        let value = match outcome {
            Ok(value) => value,
            Err(error) => {
                return Err(
                    WorkerDirectoryNodeFailureBindingError::Binding {
                        evidence: Self::with_retained_evidence(primary, evidence),
                        error,
                    },
                );
            },
        };
        let retired = retire(&evidence);
        assert(call_ensures(retire, (&evidence,), retired));
        match retired {
            Ok(unit) => {
                assert(unit == ());
                Ok(WorkerDirectoryNodeFailureBound::Bound { value, primary })
            },
            Err(error) => Ok(
                WorkerDirectoryNodeFailureBound::BoundWithRetirementFailure {
                    value,
                    primary,
                    error,
                },
            ),
        }
    }
}

// ---------------------------------------------------------------------------
// One directory that was made
// ---------------------------------------------------------------------------

/// A directory that was made, and what keeps it locked.
#[derive(Debug)]
pub struct WorkerDirectoryNodeCreation<Lease> {
    pub observation: WorkerDirectoryNodeObservation,
    pub lease: Lease,
}

/// A directory that was made, after another look at it.
pub struct VerifiedWorkerDirectoryNodeBinding<'authority> {
    observation: &'authority WorkerDirectoryNodeObservation,
}

impl<'authority> VerifiedWorkerDirectoryNodeBinding<'authority> {
    /// What was observed.
    pub closed spec fn observed(&self) -> ObservationModel {
        self.observation@
    }

    /// What was observed.
    pub fn observation(&self) -> (observation: &WorkerDirectoryNodeObservation)
        ensures
            observation@ == self.observed(),
    {
        self.observation
    }
}

/// What was bound of a directory that was made.
#[derive(Debug)]
pub enum WorkerDirectoryBound<Value> {
    Bound(Value),
    BoundWithRetirementFailure { value: Value, error: PlatformError },
}

/// Why nothing was bound, or why what was bound does not count.
#[derive(Debug)]
pub enum WorkerDirectoryBindingError<BindingError> {
    Reverification(PlatformError),
    Binding(BindingError),
    AuthorityRetirement(PlatformError),
}

/// Whether binding a directory gave `outcome`.
pub open spec fn node_bound<Value, BindingError, B>(
    bind: B,
    observation: ObservationModel,
    outcome: Result<Value, BindingError>,
) -> bool where
    B: for<'a>FnOnce(VerifiedWorkerDirectoryNodeBinding<'a>) -> Result<Value, BindingError>,
 {
    exists|binding: VerifiedWorkerDirectoryNodeBinding|
        binding.observed() == observation && #[trigger] call_ensures(bind, (binding,), outcome)
}

impl<Lease> WorkerDirectoryNodeCreation<Lease> {
    /// A directory that was made.
    pub fn new(observation: WorkerDirectoryNodeObservation, lease: Lease) -> (creation: Self)
        ensures
            creation == (WorkerDirectoryNodeCreation { observation, lease }),
    {
        WorkerDirectoryNodeCreation { observation, lease }
    }

    /// Binds the directory, after another look at it, and releases it.
    pub fn bind_after_reverify<Value, BindingError, R, B, T>(
        self,
        reverify: R,
        bind: B,
        retire: T,
    ) -> (result: Result<
        WorkerDirectoryBound<Value>,
        WorkerDirectoryBindingError<BindingError>,
    >) where
        R: FnOnce(&Lease, &WorkerDirectoryNodeObservation) -> Result<(), PlatformError>,
        B: for<'a>FnOnce(VerifiedWorkerDirectoryNodeBinding<'a>) -> Result<Value, BindingError>,
        T: FnOnce(&Lease) -> Result<(), PlatformError>,

        requires
            call_requires(reverify, (&self.lease, &self.observation)),
            call_ensures(reverify, (&self.lease, &self.observation), Ok(())) ==> (forall|
                binding: VerifiedWorkerDirectoryNodeBinding,
            |
                binding.observed() == self.observation@ ==> #[trigger] call_requires(
                    bind,
                    (binding,),
                )),
            (exists|value: Value| #[trigger]
                node_bound(bind, self.observation@, Ok::<Value, BindingError>(value)))
                ==> call_requires(retire, (&self.lease,)),
        ensures
            match result {
                Err(WorkerDirectoryBindingError::Reverification(error)) => call_ensures(
                    reverify,
                    (&self.lease, &self.observation),
                    Err(error),
                ),
                Err(WorkerDirectoryBindingError::Binding(error)) => call_ensures(
                    reverify,
                    (&self.lease, &self.observation),
                    Ok(()),
                ) && node_bound(bind, self.observation@, Err::<Value, _>(error)),
                Err(WorkerDirectoryBindingError::AuthorityRetirement(_)) => false,
                Ok(WorkerDirectoryBound::Bound(value)) => call_ensures(
                    reverify,
                    (&self.lease, &self.observation),
                    Ok(()),
                ) && node_bound(bind, self.observation@, Ok::<_, BindingError>(value))
                    && call_ensures(retire, (&self.lease,), Ok(())),
                Ok(WorkerDirectoryBound::BoundWithRetirementFailure { value, error }) =>
                    call_ensures(reverify, (&self.lease, &self.observation), Ok(()))
                    && node_bound(bind, self.observation@, Ok::<_, BindingError>(value))
                    && call_ensures(retire, (&self.lease,), Err(error)),
            },
    {
        match reverify(&self.lease, &self.observation) {
            Ok(unit) => {
                assert(unit == ());
            },
            Err(error) => {
                return Err(WorkerDirectoryBindingError::Reverification(error));
            },
        }
        let binding = VerifiedWorkerDirectoryNodeBinding { observation: &self.observation };
        let outcome = bind(binding);
        assert(call_ensures(bind, (binding,), outcome));
        assert(node_bound(bind, self.observation@, outcome));
        let value = match outcome {
            Ok(value) => value,
            Err(error) => {
                return Err(WorkerDirectoryBindingError::Binding(error));
            },
        };
        match retire(&self.lease) {
            Ok(unit) => {
                assert(unit == ());
                Ok(WorkerDirectoryBound::Bound(value))
            },
            Err(error) => Ok(WorkerDirectoryBound::BoundWithRetirementFailure { value, error }),
        }
    }
}

// ---------------------------------------------------------------------------
// A whole layout
// ---------------------------------------------------------------------------

/// The directories of a layout: the root, and the five in it.
#[derive(Debug)]
pub struct WorkerDirectoryCreation<Lease> {
    pub nodes: [WorkerDirectoryNodeObservation; 6],
    pub lease: Lease,
}

/// What was observed of several directories.
pub open spec fn observations_model(nodes: Seq<WorkerDirectoryNodeObservation>) -> Seq<
    ObservationModel,
> {
    nodes.map_values(|node: WorkerDirectoryNodeObservation| node@)
}

/// The directories of a layout, after another look at them.
pub struct VerifiedWorkerDirectoryBinding<'authority> {
    nodes: &'authority [WorkerDirectoryNodeObservation; 6],
}

impl<'authority> VerifiedWorkerDirectoryBinding<'authority> {
    /// What was observed.
    pub closed spec fn observed(&self) -> Seq<ObservationModel> {
        observations_model(self.nodes@)
    }

    /// What was observed.
    pub fn observations(&self) -> (nodes: &[WorkerDirectoryNodeObservation; 6])
        ensures
            observations_model(nodes@) == self.observed(),
    {
        self.nodes
    }
}

/// Whether binding a layout gave `outcome`.
pub open spec fn layout_bound<Value, BindingError, B>(
    bind: B,
    nodes: Seq<ObservationModel>,
    outcome: Result<Value, BindingError>,
) -> bool where
    B: for<'a>FnOnce(VerifiedWorkerDirectoryBinding<'a>) -> Result<Value, BindingError>,
 {
    exists|binding: VerifiedWorkerDirectoryBinding|
        binding.observed() == nodes && #[trigger] call_ensures(bind, (binding,), outcome)
}

impl<Lease> WorkerDirectoryCreation<Lease> {
    /// The directories of a layout.
    pub fn new(
        root: WorkerDirectoryNodeObservation,
        children: (
            WorkerDirectoryNodeObservation,
            WorkerDirectoryNodeObservation,
            WorkerDirectoryNodeObservation,
            WorkerDirectoryNodeObservation,
            WorkerDirectoryNodeObservation,
        ),
        lease: Lease,
    ) -> (creation: Self)
        ensures
            creation.nodes@ == seq![
                root,
                children.0,
                children.1,
                children.2,
                children.3,
                children.4,
            ],
            creation.lease == lease,
    {
        let (repos, jobs, cache, artifacts, logs) = children;
        WorkerDirectoryCreation { nodes: [root, repos, jobs, cache, artifacts, logs], lease }
    }

    /// Binds the directories, after another look at them, and releases them.
    pub fn bind_after_reverify<Value, BindingError, R, B, T>(
        self,
        reverify: R,
        bind: B,
        retire: T,
    ) -> (result: Result<Value, WorkerDirectoryBindingError<BindingError>>) where
        R: FnOnce(&Lease, &[WorkerDirectoryNodeObservation; 6]) -> Result<(), PlatformError>,
        B: for<'a>FnOnce(VerifiedWorkerDirectoryBinding<'a>) -> Result<Value, BindingError>,
        T: FnOnce(&Lease) -> Result<(), PlatformError>,

        requires
            call_requires(reverify, (&self.lease, &self.nodes)),
            call_ensures(reverify, (&self.lease, &self.nodes), Ok(())) ==> (forall|
                binding: VerifiedWorkerDirectoryBinding,
            |
                binding.observed() == observations_model(self.nodes@) ==> #[trigger] call_requires(
                    bind,
                    (binding,),
                )),
            (exists|value: Value| #[trigger]
                layout_bound(
                    bind,
                    observations_model(self.nodes@),
                    Ok::<Value, BindingError>(value),
                )) ==> call_requires(retire, (&self.lease,)),
        ensures
            match result {
                Err(WorkerDirectoryBindingError::Reverification(error)) => call_ensures(
                    reverify,
                    (&self.lease, &self.nodes),
                    Err(error),
                ),
                Err(WorkerDirectoryBindingError::Binding(error)) => call_ensures(
                    reverify,
                    (&self.lease, &self.nodes),
                    Ok(()),
                ) && layout_bound(bind, observations_model(self.nodes@), Err::<Value, _>(error)),
                Err(WorkerDirectoryBindingError::AuthorityRetirement(error)) => call_ensures(
                    reverify,
                    (&self.lease, &self.nodes),
                    Ok(()),
                ) && (exists|value: Value| #[trigger]
                    layout_bound(
                        bind,
                        observations_model(self.nodes@),
                        Ok::<Value, BindingError>(value),
                    )) && call_ensures(retire, (&self.lease,), Err(error)),
                Ok(value) => call_ensures(reverify, (&self.lease, &self.nodes), Ok(()))
                    && layout_bound(
                    bind,
                    observations_model(self.nodes@),
                    Ok::<_, BindingError>(value),
                ) && call_ensures(retire, (&self.lease,), Ok(())),
            },
    {
        match reverify(&self.lease, &self.nodes) {
            Ok(unit) => {
                assert(unit == ());
            },
            Err(error) => {
                return Err(WorkerDirectoryBindingError::Reverification(error));
            },
        }
        let binding = VerifiedWorkerDirectoryBinding { nodes: &self.nodes };
        let outcome = bind(binding);
        assert(call_ensures(bind, (binding,), outcome));
        assert(layout_bound(bind, observations_model(self.nodes@), outcome));
        let value = match outcome {
            Ok(value) => value,
            Err(error) => {
                return Err(WorkerDirectoryBindingError::Binding(error));
            },
        };
        assert(outcome == Ok::<Value, BindingError>(value));
        match retire(&self.lease) {
            Ok(unit) => {
                assert(unit == ());
                Ok(value)
            },
            Err(error) => Err(WorkerDirectoryBindingError::AuthorityRetirement(error)),
        }
    }
}

/// Why a layout was not made.
#[derive(Debug)]
pub enum WorkerDirectoryCreationError<Lease> {
    Native { error: PrivilegeError },
    RetainedWindowsEvidence {
        primary: PrivilegeError,
        operation_error: Option<PlatformError>,
        privilege_cleanup_failed: bool,
        evidence: WorkerDirectoryFailureEvidence<Lease>,
    },
}

/// Directories that were made before a failure, after another look at them.
pub struct VerifiedWorkerDirectoryFailureBinding<'authority> {
    nodes: &'authority [WorkerDirectoryNodeObservation],
}

impl<'authority> VerifiedWorkerDirectoryFailureBinding<'authority> {
    /// What was observed.
    pub closed spec fn observed(&self) -> Seq<ObservationModel> {
        observations_model(self.nodes@)
    }

    /// What was observed.
    pub fn observations(&self) -> (nodes: &[WorkerDirectoryNodeObservation])
        ensures
            observations_model(nodes@) == self.observed(),
    {
        self.nodes
    }
}

/// Why nothing was bound after a failure.
#[derive(Debug)]
pub enum WorkerDirectoryFailureBindingError<BindingError> {
    NoRetainedEvidence,
    Reverification(PlatformError),
    Binding(BindingError),
}

/// Whether a look at what is held gave observations, and binding them gave
/// `outcome`.
pub open spec fn failures_bound<Lease, Value, BindingError, R, B>(
    reverify: R,
    bind: B,
    evidence: WorkerDirectoryFailureEvidence<Lease>,
    outcome: Result<Value, BindingError>,
) -> bool where
    R: FnOnce(&WorkerDirectoryFailureEvidence<Lease>) -> Result<
        Vec<WorkerDirectoryNodeObservation>,
        PlatformError,
    >,
    B: for<'a>FnOnce(VerifiedWorkerDirectoryFailureBinding<'a>) -> Result<Value, BindingError>,
 {
    exists|
        nodes: Vec<WorkerDirectoryNodeObservation>,
        binding: VerifiedWorkerDirectoryFailureBinding,
    |
        #![trigger call_ensures(reverify, (&evidence,), Ok(nodes)), call_ensures(bind, (binding,), outcome)]
        call_ensures(reverify, (&evidence,), Ok(nodes)) && binding.observed()
            == observations_model(nodes@) && call_ensures(bind, (binding,), outcome)
}

impl<Lease> WorkerDirectoryCreationError<Lease> {
    /// A failure after which nothing is held.
    pub fn native(error: PrivilegeError) -> (failure: Self)
        ensures
            failure == (WorkerDirectoryCreationError::<Lease>::Native { error }),
    {
        WorkerDirectoryCreationError::Native { error }
    }

    /// A failure after which something is held.
    pub fn with_windows_retained_evidence(
        primary: PrivilegeError,
        operation_error: Option<PlatformError>,
        privilege_cleanup_failed: bool,
        evidence: WorkerDirectoryFailureEvidence<Lease>,
    ) -> (failure: Self)
        ensures
            failure == (WorkerDirectoryCreationError::RetainedWindowsEvidence {
                primary,
                operation_error,
                privilege_cleanup_failed,
                evidence,
            }),
    {
        WorkerDirectoryCreationError::RetainedWindowsEvidence {
            primary,
            operation_error,
            privilege_cleanup_failed,
            evidence,
        }
    }

    /// The class of the failure.
    pub fn kind(&self) -> (kind: ErrorKind)
        ensures
            kind == (match *self {
                WorkerDirectoryCreationError::Native { error } => error.spec_kind(),
                WorkerDirectoryCreationError::RetainedWindowsEvidence { primary, .. } =>
                    primary.spec_kind(),
            }),
    {
        match self {
            WorkerDirectoryCreationError::Native { error } => error.kind(),
            WorkerDirectoryCreationError::RetainedWindowsEvidence { primary, .. } => {
                primary.kind()
            },
        }
    }

    /// Whether a privilege could not be given back.
    pub fn is_windows_privilege_cleanup_failure(&self) -> (holds: bool)
        ensures
            holds == (*self matches WorkerDirectoryCreationError::RetainedWindowsEvidence {
                privilege_cleanup_failed,
                ..
            } && privilege_cleanup_failed),
    {
        match self {
            WorkerDirectoryCreationError::Native { .. } => false,
            WorkerDirectoryCreationError::RetainedWindowsEvidence {
                privilege_cleanup_failed,
                ..
            } => *privilege_cleanup_failed,
        }
    }

    /// How many directories are held.
    pub fn retained_creation_evidence_count(&self) -> (count: usize)
        ensures
            count == (match *self {
                WorkerDirectoryCreationError::Native { .. } => 0,
                WorkerDirectoryCreationError::RetainedWindowsEvidence { evidence, .. } =>
                    evidence.created.created@.len(),
            }),
    {
        match self {
            WorkerDirectoryCreationError::Native { .. } => 0,
            WorkerDirectoryCreationError::RetainedWindowsEvidence { evidence, .. } => {
                evidence.retained_count()
            },
        }
    }

    /// Of how many of them it is not known which directory they are.
    pub fn retained_unresolved_creation_evidence_count(&self) -> (count: usize)
        ensures
            count == (match *self {
                WorkerDirectoryCreationError::Native { .. } => 0,
                WorkerDirectoryCreationError::RetainedWindowsEvidence { evidence, .. } =>
                    unresolved_of(evidence.created.created@),
            }),
    {
        match self {
            WorkerDirectoryCreationError::Native { .. } => 0,
            WorkerDirectoryCreationError::RetainedWindowsEvidence { evidence, .. } => {
                evidence.unresolved_count()
            },
        }
    }

    /// Binds what is held, after another look at it. It stays held.
    pub fn bind_retained_creation_evidence_after_reverify<Value, BindingError, R, B>(
        &self,
        reverify: R,
        bind: B,
    ) -> (result: Result<Value, WorkerDirectoryFailureBindingError<BindingError>>) where
        R: FnOnce(&WorkerDirectoryFailureEvidence<Lease>) -> Result<
            Vec<WorkerDirectoryNodeObservation>,
            PlatformError,
        >,
        B: for<'a>FnOnce(VerifiedWorkerDirectoryFailureBinding<'a>) -> Result<Value, BindingError>,

        requires
            *self matches WorkerDirectoryCreationError::RetainedWindowsEvidence { evidence, .. }
                ==> call_requires(reverify, (&evidence,)),
            *self matches WorkerDirectoryCreationError::RetainedWindowsEvidence { evidence, .. }
                ==> (forall|
                seen: Vec<WorkerDirectoryNodeObservation>,
                binding: VerifiedWorkerDirectoryFailureBinding,
            |
                #![trigger call_ensures(reverify, (&evidence,), Ok(seen)), call_requires(bind, (binding,))]
                call_ensures(reverify, (&evidence,), Ok(seen)) && binding.observed()
                    == observations_model(seen@) ==> call_requires(bind, (binding,))),
        ensures
            match *self {
                WorkerDirectoryCreationError::Native { .. } => result == Err::<Value, _>(
                    WorkerDirectoryFailureBindingError::<BindingError>::NoRetainedEvidence,
                ),
                WorkerDirectoryCreationError::RetainedWindowsEvidence { evidence, .. } =>
                    match result {
                    Err(WorkerDirectoryFailureBindingError::NoRetainedEvidence) => false,
                    Err(WorkerDirectoryFailureBindingError::Reverification(error)) => call_ensures(
                        reverify,
                        (&evidence,),
                        Err(error),
                    ),
                    Err(WorkerDirectoryFailureBindingError::Binding(error)) => failures_bound(
                        reverify,
                        bind,
                        evidence,
                        Err::<Value, _>(error),
                    ),
                    Ok(value) => failures_bound(
                        reverify,
                        bind,
                        evidence,
                        Ok::<_, BindingError>(value),
                    ),
                },
            },
    {
        let evidence = match self {
            WorkerDirectoryCreationError::Native { .. } => {
                return Err(WorkerDirectoryFailureBindingError::NoRetainedEvidence);
            },
            WorkerDirectoryCreationError::RetainedWindowsEvidence { evidence, .. } => evidence,
        };
        let looked = reverify(evidence);
        let nodes = match looked {
            Ok(nodes) => nodes,
            Err(error) => {
                return Err(WorkerDirectoryFailureBindingError::Reverification(error));
            },
        };
        assert(call_ensures(
            reverify,
            (evidence,),
            Ok::<Vec<WorkerDirectoryNodeObservation>, PlatformError>(nodes),
        ));
        let binding = VerifiedWorkerDirectoryFailureBinding { nodes: nodes.as_slice() };
        let outcome = bind(binding);
        assert(call_ensures(bind, (binding,), outcome));
        assert(failures_bound(reverify, bind, *evidence, outcome));
        match outcome {
            Ok(value) => Ok(value),
            Err(error) => Err(WorkerDirectoryFailureBindingError::Binding(error)),
        }
    }

    /// What is said of the failure, given what is said of its parts.
    pub fn text(&self, primary: &str, operation: &str) -> (text: String)
        ensures
            text@ == (match *self {
                WorkerDirectoryCreationError::RetainedWindowsEvidence {
                    operation_error: Some(_),
                    ..
                } => primary@ + "; worker directory mutation also failed: "@ + operation@,
                _ => primary@,
            }),
    {
        let mut chars = chars_of(primary);
        match self {
            WorkerDirectoryCreationError::RetainedWindowsEvidence {
                operation_error: Some(_),
                ..
            } => {
                let mut between = chars_of("; worker directory mutation also failed: ");
                chars.append(&mut between);
                let mut last = chars_of(operation);
                chars.append(&mut last);
            },
            _ => {},
        }
        string_of(&chars)
    }
}

} // verus!
