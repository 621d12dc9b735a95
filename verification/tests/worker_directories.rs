use std::collections::BTreeMap;

use styrn::descriptor::{RawAce, SecurityFacts, SidRoles};
use styrn::digest::sha256_text;
use styrn::error::{ErrorKind, OsStatus, PlatformError};
use styrn::evidence::{
    WorkerDirectoryBindingError, WorkerDirectoryBound, WorkerDirectoryCreationError,
    WorkerDirectoryFailureBindingError, WorkerDirectoryFailureEvidence,
    WorkerDirectoryNodeCreationError, WorkerDirectoryNodeFailureBindingError,
    WorkerDirectoryNodeFailureBound,
};
use styrn::layout::{
    worker_directory_layout_for_test, InstallationScope, WorkerDirectoryLayout,
    WorkerDirectoryNode, WorkerPath,
};
use styrn::layout_mutation::{
    perform_worker_directory_mutation, CreatedWorkerDirectoryEvidence, LayoutPlan, LayoutStep,
    NodeRecord, WorkerMutationEvidence,
};
use styrn::node_mutation::{
    perform_worker_directory_node_mutation, worker_node_target, worker_target_path, NodePlan,
    NodeStep, WorkerNodeMutationEvidence,
};
use styrn::principal::{PrincipalKind, WorkerAccountPolicy, WorkerPrincipal};
use styrn::privilege::{PrivilegeError, WindowsPrivilegedWorkerMutation};
use styrn::worker_create::{
    begin_worker_creation, check_worker_directory_node, classify_worker_directory_inspection_error,
    create_worker_directory_layout, create_worker_directory_node, inspect_worker_directory_node,
    retire_succeeded_worker_directory_evidence, CreationChecks, InspectionFacts, MutationRun,
    WorkerDirectoryInspectionIssue, WorkerDirectoryNodeInspection,
};
use styrn::worker_lock::{
    accept_lock_wait, final_worker_component_name, normalized_worker_lock_suffix,
    prepare_worker_lock_anchor, worker_creation_start, worker_layout_lock_key,
    worker_layout_lock_name, CreationPolicyFacts, SuffixReply, SuffixStep, WAIT_ABANDONED_0,
    WAIT_OBJECT_0,
};
use styrn::worker_ops::{
    component_byte_length, opened_worker_directory, worker_directory_access,
    worker_directory_identity, RetainedCreatedWorkerDirectory, WorkerAction,
    WorkerDirectoryIdentity, WorkerDirectoryNodeDisposition, WorkerDirectoryNodeObservation,
    WorkerDirectoryRef, WorkerMutationControl, WorkerReply, WorkerStep, WorkerTarget,
};
use styrn::worker_outcome::{
    reverify_path_identity, reverify_worker_directory_failure_evidence,
    reverify_worker_directory_lease, reverify_worker_directory_node_lease, LockFacts,
    WorkerDirectoryNodeCreateOutcome,
};
use styrn::worker_root::FolderFacts;

fn units(text: &str) -> Vec<u16> {
    text.encode_utf16().collect()
}

fn path(text: &str) -> WorkerPath {
    WorkerPath {
        prefix: units(&text[..3]),
        components: text[3..].split('\\').map(units).collect(),
    }
}

fn native(kind: ErrorKind) -> PlatformError {
    PlatformError::Native { kind, code: None }
}

fn denied(message: &'static str) -> PlatformError {
    PlatformError::Policy {
        kind: ErrorKind::PermissionDenied,
        message,
    }
}

/// A volume with directories, which answers what is asked of it.
struct Volume {
    root: Vec<String>,
    first_creatable: usize,
    directories: BTreeMap<Vec<String>, u8>,
    unsafe_directories: Vec<Vec<String>>,
    opened: BTreeMap<usize, Vec<String>>,
    made: Vec<Vec<String>>,
}

const CHILDREN: [&str; 5] = ["repos", "jobs", "cache", "artifacts", "logs"];

fn identity(number: u8) -> WorkerDirectoryIdentity {
    WorkerDirectoryIdentity::from_windows(77, [number; 16])
}

impl Volume {
    fn new(root: &[&str], first_creatable: usize, existing: usize) -> Self {
        let root: Vec<String> = root.iter().map(|name| name.to_string()).collect();
        let mut directories = BTreeMap::new();
        for depth in 0..=existing {
            directories.insert(root[..depth].to_vec(), depth as u8);
        }
        Volume {
            root,
            first_creatable,
            directories,
            unsafe_directories: Vec::new(),
            opened: BTreeMap::new(),
            made: Vec::new(),
        }
    }

    fn place(&self, directory: WorkerDirectoryRef) -> Vec<String> {
        match directory {
            WorkerDirectoryRef::Anchor => self.root[..self.first_creatable].to_vec(),
            WorkerDirectoryRef::Opened { at } => self.opened[&at].clone(),
        }
    }

    fn entry(&self, parent: WorkerDirectoryRef, target: WorkerTarget) -> Vec<String> {
        let mut place = self.place(parent);
        place.push(match target {
            WorkerTarget::Component { index } => self.root[index].clone(),
            WorkerTarget::Child { ordinal } => CHILDREN[ordinal].to_string(),
        });
        place
    }

    fn target(&self, target: WorkerTarget) -> Vec<String> {
        match target {
            WorkerTarget::Component { index } => self.root[..=index].to_vec(),
            WorkerTarget::Child { ordinal } => {
                let mut place = self.root.clone();
                place.push(CHILDREN[ordinal].to_string());
                place
            }
        }
    }

    fn see(&mut self, at: usize, place: Vec<String>) -> WorkerReply {
        match self.directories.get(&place) {
            Some(number) => {
                let found = identity(*number);
                self.opened.insert(at, place);
                WorkerReply {
                    result: Ok(()),
                    identity: found,
                }
            }
            None => WorkerReply {
                result: Err(native(ErrorKind::NotFound)),
                identity: identity(255),
            },
        }
    }

    fn answer(&mut self, at: usize, action: WorkerAction) -> WorkerReply {
        match action {
            WorkerAction::OpenVolume => self.see(at, Vec::new()),
            WorkerAction::Open { parent, target } | WorkerAction::Reopen { parent, target } => {
                let place = self.entry(parent, target);
                self.see(at, place)
            }
            WorkerAction::OpenPath { target } => {
                let place = self.target(target);
                self.see(at, place)
            }
            WorkerAction::Identify { directory } => {
                let place = self.place(directory);
                self.see(at, place)
            }
            WorkerAction::VerifyCanonical { directory }
            | WorkerAction::VerifyAncestor { directory, .. } => WorkerReply {
                result: if self.unsafe_directories.contains(&self.place(directory)) {
                    Err(denied("it is not safe"))
                } else {
                    Ok(())
                },
                identity: identity(255),
            },
            WorkerAction::Create { parent, target } => {
                let place = self.entry(parent, target);
                if self.directories.contains_key(&place) {
                    return WorkerReply {
                        result: Err(native(ErrorKind::AlreadyExists)),
                        identity: identity(255),
                    };
                }
                let number = 100 + self.made.len() as u8;
                self.directories.insert(place.clone(), number);
                self.made.push(place.clone());
                self.see(at, place)
            }
        }
    }
}

const FREE: WorkerMutationControl = WorkerMutationControl {
    fail_after_created: None,
    fail_after_native_created: None,
};

fn run_layout(
    volume: &mut Volume,
    control: WorkerMutationControl,
) -> (Option<PlatformError>, WorkerMutationEvidence, Vec<WorkerReply>) {
    let plan = LayoutPlan {
        component_count: volume.root.len(),
        first_creatable: volume.first_creatable,
        allow_untrusted_parent_create: false,
        control,
    };
    let mut replies = Vec::new();
    loop {
        match perform_worker_directory_mutation(&plan, &replies) {
            LayoutStep::Ask(action) => {
                let reply = volume.answer(replies.len(), action);
                replies.push(reply);
            }
            LayoutStep::Done { failure, evidence } => return (failure, evidence, replies),
        }
    }
}

fn run_node(
    volume: &mut Volume,
    node: WorkerDirectoryNode,
    control: WorkerMutationControl,
) -> (Option<PlatformError>, WorkerNodeMutationEvidence) {
    let plan = NodePlan {
        component_count: volume.root.len(),
        first_creatable: volume.first_creatable,
        node,
        control,
    };
    let mut replies = Vec::new();
    loop {
        match perform_worker_directory_node_mutation(&plan, &replies) {
            NodeStep::Ask(action) => {
                let reply = volume.answer(replies.len(), action);
                replies.push(reply);
            }
            NodeStep::Done { failure, evidence } => return (failure, evidence),
        }
    }
}

fn principal() -> WorkerPrincipal {
    WorkerPrincipal::new(
        PrincipalKind::WindowsSid,
        "S-1-5-21-1-2-3-1001",
        "ordinary",
        WorkerAccountPolicy::CurrentUser,
    )
    .unwrap()
}

fn layout() -> WorkerDirectoryLayout {
    worker_directory_layout_for_test(
        InstallationScope::User,
        principal(),
        path(r"C:\profile\support\root"),
        Some(path(r"C:\profile")),
    )
}

fn passed() -> CreationChecks {
    CreationChecks {
        start: Ok(()),
        rules: Ok(()),
        anchor: Ok(()),
        current: Ok(()),
        lock: Ok(()),
        reverified: Ok(()),
        principal: Ok(()),
        owner_matches_current: Ok(true),
        handed_on: Ok(()),
    }
}

fn ran<Evidence>(
    operation_error: Option<PlatformError>,
    evidence: Evidence,
    cleanup: Result<(), PrivilegeError>,
) -> MutationRun<Evidence> {
    MutationRun::Ran {
        mutation: WindowsPrivilegedWorkerMutation {
            operation_error,
            evidence,
        },
        cleanup,
    }
}

#[test]
fn a_new_layout_is_the_root_and_its_five_directories() {
    let mut volume = Volume::new(&["profile", "support", "root"], 1, 1);
    let (failure, evidence, _) = run_layout(&mut volume, FREE);
    assert_eq!(failure, None);
    let expected: Vec<Vec<String>> = [
        vec!["profile", "support"],
        vec!["profile", "support", "root"],
        vec!["profile", "support", "root", "repos"],
        vec!["profile", "support", "root", "jobs"],
        vec!["profile", "support", "root", "cache"],
        vec!["profile", "support", "root", "artifacts"],
        vec!["profile", "support", "root", "logs"],
    ]
    .iter()
    .map(|place| place.iter().map(|name| name.to_string()).collect())
    .collect();
    assert_eq!(volume.made, expected);

    let creation = create_worker_directory_layout(&layout(), &passed(), ran(None, evidence, Ok(())), "lock")
        .ok()
        .unwrap();
    assert_eq!(creation.lease.lease, "lock");
    assert_eq!(creation.lease.nodes.len(), 6);
    let shown: Vec<(bool, WorkerDirectoryIdentity)> = creation
        .nodes
        .iter()
        .map(|node| {
            (
                node.disposition() == WorkerDirectoryNodeDisposition::Created,
                node.identity(),
            )
        })
        .collect();
    assert_eq!(
        shown,
        (101..107).map(|number| (true, identity(number))).collect::<Vec<_>>()
    );
    assert!(creation.nodes[0].path().same_as(&path(r"C:\profile\support\root")));
    assert!(creation.nodes[5].path().same_as(&path(r"C:\profile\support\root\logs")));
}

#[test]
fn an_existing_layout_is_left_as_it_is() {
    let mut volume = Volume::new(&["profile", "support", "root"], 1, 3);
    for (ordinal, name) in CHILDREN.iter().enumerate() {
        let mut place = volume.root.clone();
        place.push(name.to_string());
        volume.directories.insert(place, 50 + ordinal as u8);
    }
    let (failure, evidence, _) = run_layout(&mut volume, FREE);
    assert_eq!(failure, None);
    assert!(volume.made.is_empty());
    let creation = create_worker_directory_layout(&layout(), &passed(), ran(None, evidence, Ok(())), ())
        .ok()
        .unwrap();
    assert!(creation
        .nodes
        .iter()
        .all(|node| node.disposition() == WorkerDirectoryNodeDisposition::Existing));
    assert_eq!(creation.nodes[2].identity(), identity(51));
}

#[test]
fn an_unsafe_directory_stops_the_layout() {
    let mut volume = Volume::new(&["profile", "support", "root"], 1, 2);
    volume.unsafe_directories.push(volume.root[..2].to_vec());
    let (failure, evidence, _) = run_layout(&mut volume, FREE);
    assert_eq!(failure, Some(denied("it is not safe")));
    assert!(volume.made.is_empty());
    let failed = create_worker_directory_layout(&layout(), &passed(), ran(failure, evidence, Ok(())), ())
        .err()
        .unwrap();
    assert_eq!(failed.kind(), ErrorKind::PermissionDenied);
    assert_eq!(failed.retained_creation_evidence_count(), 0);
}

#[test]
fn what_was_made_before_a_failure_is_kept_and_seen_again() {
    let mut volume = Volume::new(&["profile", "support", "root"], 1, 1);
    let control = WorkerMutationControl::new(Some(3), None);
    let (failure, evidence, replies) = run_layout(&mut volume, control);
    assert!(failure.is_some());
    assert_eq!(volume.made.len(), 4);
    let failed = create_worker_directory_layout(&layout(), &passed(), ran(failure, evidence, Ok(())), ())
        .err()
        .unwrap();
    assert_eq!(failed.retained_creation_evidence_count(), 4);
    assert_eq!(failed.retained_unresolved_creation_evidence_count(), 0);
    assert!(!failed.is_windows_privilege_cleanup_failure());

    let facts = LockFacts {
        principal: Ok(()),
        anchor: identity(1),
        reopened: Ok(identity(1)),
    };
    // The operations of the run are over: references count from where it began.
    let base = replies.len();
    let places = volume.opened.clone();
    let bound = failed.bind_retained_creation_evidence_after_reverify(
        |kept: &WorkerDirectoryFailureEvidence<()>| {
            let mut answers: Vec<WorkerReply> = Vec::new();
            loop {
                match reverify_worker_directory_failure_evidence(
                    &facts,
                    layout().root(),
                    &kept.created,
                    &answers,
                ) {
                    WorkerStep::Ask(action) => {
                        volume.opened = places.clone();
                        let reply = volume.answer(base + answers.len(), action);
                        answers.push(reply);
                    }
                    WorkerStep::Fail(failure) => return Err(failure),
                    WorkerStep::Next(seen) => return Ok(seen),
                }
            }
        },
        |binding| {
            Ok::<_, ()>(
                binding
                    .observations()
                    .iter()
                    .map(|seen| seen.identity())
                    .collect::<Vec<_>>(),
            )
        },
    );
    assert_eq!(
        bound.ok().unwrap(),
        (100..104).map(identity).collect::<Vec<_>>()
    );
}

#[test]
fn a_directory_that_could_not_be_identified_stays_unresolved() {
    let mut volume = Volume::new(&["profile", "root"], 1, 1);
    let control = WorkerMutationControl::new(None, Some(1));
    let (failure, evidence, _) = run_layout(&mut volume, control);
    assert!(failure.is_some());
    let failed = create_worker_directory_layout(&layout(), &passed(), ran(failure, evidence, Ok(())), ())
        .err()
        .unwrap();
    assert_eq!(failed.retained_creation_evidence_count(), 1);
    assert_eq!(failed.retained_unresolved_creation_evidence_count(), 1);
}

#[test]
fn a_failed_cleanup_outweighs_a_finished_layout() {
    let mut volume = Volume::new(&["profile", "root"], 1, 1);
    let (failure, evidence, _) = run_layout(&mut volume, FREE);
    assert_eq!(failure, None);
    let mut checks = passed();
    checks.owner_matches_current = Ok(false);
    let failed = create_worker_directory_layout(
        &layout(),
        &checks,
        ran(None, evidence, Err(PrivilegeError::Single(native(ErrorKind::Other)))),
        (),
    )
    .err()
    .unwrap();
    assert!(failed.is_windows_privilege_cleanup_failure());
    assert_eq!(failed.retained_creation_evidence_count(), 6);
    assert_eq!(failed.kind(), ErrorKind::Other);
}

#[test]
fn nothing_runs_while_a_check_fails() {
    let mut checks = passed();
    checks.lock = Err(native(ErrorKind::Other));
    assert_eq!(begin_worker_creation(&checks), Err(native(ErrorKind::Other)));
    let failed = create_worker_directory_layout::<()>(
        &layout(),
        &checks,
        MutationRun::NotStarted(PrivilegeError::Single(native(ErrorKind::NotFound))),
        (),
    )
    .err()
    .unwrap();
    assert!(matches!(
        failed.bind_retained_creation_evidence_after_reverify(
            |_| panic!("nothing is kept"),
            |_| Ok::<(), ()>(())
        ),
        Err(WorkerDirectoryFailureBindingError::NoRetainedEvidence)
    ));
    assert!(matches!(
        failed,
        WorkerDirectoryCreationError::Native {
            error: PrivilegeError::Single(PlatformError::Native {
                kind: ErrorKind::Other,
                ..
            })
        }
    ));
    let mut another_owner = passed();
    another_owner.owner_matches_current = Ok(false);
    assert_eq!(begin_worker_creation(&another_owner), Ok(true));
}

#[test]
fn current_owner_creation_skips_restore_privilege_thread() {
    assert_eq!(begin_worker_creation(&passed()), Ok(false));
}

#[test]
fn one_node_is_made_where_it_belongs() {
    let mut volume = Volume::new(&["profile", "support", "root"], 1, 3);
    let (failure, evidence) = run_node(&mut volume, WorkerDirectoryNode::Cache, FREE);
    assert_eq!(failure, None);
    assert_eq!(volume.made, vec![volume.target(WorkerTarget::Child { ordinal: 2 })]);
    let outcome = create_worker_directory_node(
        &layout(),
        WorkerDirectoryNode::Cache,
        &passed(),
        ran(None, evidence, Ok(())),
        "lock",
    )
    .ok()
    .unwrap();
    let WorkerDirectoryNodeCreateOutcome::Created(creation) = outcome else {
        panic!("it was made");
    };
    assert!(creation
        .observation
        .path()
        .same_as(&path(r"C:\profile\support\root\cache")));
    let bound = creation.bind_after_reverify(
        |_, observation| {
            assert_eq!(observation.identity(), identity(100));
            Ok(())
        },
        |binding| Ok::<_, ()>(binding.observation().identity()),
        |lease| {
            assert_eq!(lease.lease, "lock");
            Err(native(ErrorKind::Other))
        },
    );
    let Ok(WorkerDirectoryBound::BoundWithRetirementFailure { value, error }) = bound else {
        panic!("it was bound");
    };
    assert_eq!(value, identity(100));
    assert_eq!(error, native(ErrorKind::Other));
}

#[test]
fn an_existing_node_is_reported_as_such() {
    let mut volume = Volume::new(&["profile", "support", "root"], 1, 3);
    let (failure, evidence) = run_node(&mut volume, WorkerDirectoryNode::Root, FREE);
    assert_eq!(failure, None);
    assert!(volume.made.is_empty());
    assert!(matches!(
        create_worker_directory_node(
            &layout(),
            WorkerDirectoryNode::Root,
            &passed(),
            ran(None, evidence, Ok(())),
            ()
        ),
        Ok(WorkerDirectoryNodeCreateOutcome::Existing)
    ));
}

#[test]
fn a_node_whose_parent_is_missing_is_not_made() {
    let mut volume = Volume::new(&["profile", "support", "root"], 1, 1);
    let (failure, _) = run_node(&mut volume, WorkerDirectoryNode::Logs, FREE);
    assert_eq!(failure, Some(native(ErrorKind::NotFound)));
    assert!(volume.made.is_empty());
}

#[test]
fn a_node_that_failed_keeps_its_evidence_until_it_is_bound() {
    let mut volume = Volume::new(&["profile", "support", "root"], 1, 1);
    let (failure, evidence) = run_node(
        &mut volume,
        WorkerDirectoryNode::Support { ordinal: 0 },
        WorkerMutationControl::new(Some(1), None),
    );
    let failed = create_worker_directory_node(
        &layout(),
        WorkerDirectoryNode::Support { ordinal: 0 },
        &passed(),
        ran(failure, evidence, Ok(())),
        (),
    )
    .err()
    .unwrap();
    assert_eq!(failed.retained_creation_evidence_count(), 1);
    let held = failed
        .bind_retained_creation_evidence_after_reverify(
            |_| Err(native(ErrorKind::NotFound)),
            |_| Ok::<(), ()>(()),
            |_| Ok(()),
        )
        .err()
        .unwrap();
    let WorkerDirectoryNodeFailureBindingError::Reverification { evidence, error } = held else {
        panic!("it was not seen again");
    };
    assert_eq!(error, native(ErrorKind::NotFound));
    let bound = evidence.bind_retained_creation_evidence_after_reverify(
        |kept| {
            assert_eq!(kept.retained_count(), 1);
            Ok(WorkerDirectoryNodeObservation::new(
                path(r"C:\profile\support"),
                WorkerDirectoryNodeDisposition::Created,
                identity(100),
            ))
        },
        |binding| Ok::<_, ()>(binding.observation().identity()),
        |_| Ok(()),
    );
    assert!(matches!(
        bound,
        Ok(WorkerDirectoryNodeFailureBound::Bound { value, .. }) if value == identity(100)
    ));
}

#[test]
fn a_failure_without_evidence_is_handed_back() {
    let failed: WorkerDirectoryNodeCreationError<()> =
        WorkerDirectoryNodeCreationError::native(PrivilegeError::Single(native(ErrorKind::Other)));
    assert_eq!(failed.kind(), ErrorKind::Other);
    assert!(matches!(
        failed.bind_retained_creation_evidence_after_reverify(
            |_| Err(native(ErrorKind::Other)),
            |_| Ok::<(), ()>(()),
            |_| Ok(())
        ),
        Err(WorkerDirectoryNodeFailureBindingError::NoRetainedEvidence { .. })
    ));
}

#[test]
fn a_layout_is_bound_only_after_it_was_seen_again() {
    let mut volume = Volume::new(&["profile", "support", "root"], 1, 1);
    let (_, evidence, _) = run_layout(&mut volume, FREE);
    let creation = create_worker_directory_layout(&layout(), &passed(), ran(None, evidence, Ok(())), ())
        .ok()
        .unwrap();
    let result = creation.bind_after_reverify(
        |_, _| Err(native(ErrorKind::NotFound)),
        |_| -> Result<(), ()> { panic!("it was not seen again") },
        |_| Ok(()),
    );
    assert!(matches!(
        result,
        Err(WorkerDirectoryBindingError::Reverification(_))
    ));
}

#[test]
fn a_node_is_bound_only_after_it_was_seen_again() {
    let made = || {
        let mut volume = Volume::new(&["profile", "support", "root"], 1, 3);
        let (failure, evidence) = run_node(&mut volume, WorkerDirectoryNode::Cache, FREE);
        let outcome = create_worker_directory_node(
            &layout(),
            WorkerDirectoryNode::Cache,
            &passed(),
            ran(failure, evidence, Ok(())),
            (),
        );
        match outcome {
            Ok(WorkerDirectoryNodeCreateOutcome::Created(creation)) => creation,
            _ => panic!("it was made"),
        }
    };
    let changed = made().bind_after_reverify(
        |_, _| Err(native(ErrorKind::NotFound)),
        |_| -> Result<(), ()> { panic!("it was not seen again") },
        |_| panic!("it was not bound"),
    );
    assert!(matches!(
        changed,
        Err(WorkerDirectoryBindingError::Reverification(error)) if error == native(ErrorKind::NotFound)
    ));
    let unbound = made().bind_after_reverify(
        |_, _| Ok(()),
        |binding| Err::<(), _>(binding.observation().identity()),
        |_| panic!("it was not bound"),
    );
    assert!(matches!(
        unbound,
        Err(WorkerDirectoryBindingError::Binding(shown)) if shown == identity(100)
    ));
    let bound = made().bind_after_reverify(|_, _| Ok(()), |_| Ok::<_, ()>(7), |_| Ok(()));
    assert!(matches!(bound, Ok(WorkerDirectoryBound::Bound(7))));
}

#[test]
fn a_failed_node_is_bound_only_after_it_was_seen_again() {
    let mut volume = Volume::new(&["profile", "support", "root"], 1, 1);
    let (failure, evidence) = run_node(
        &mut volume,
        WorkerDirectoryNode::Support { ordinal: 0 },
        WorkerMutationControl::new(Some(1), None),
    );
    let failed = create_worker_directory_node(
        &layout(),
        WorkerDirectoryNode::Support { ordinal: 0 },
        &passed(),
        ran(failure, evidence, Ok(())),
        (),
    )
    .err()
    .unwrap();
    let held = failed
        .bind_retained_creation_evidence_after_reverify(
            |_| Err(native(ErrorKind::NotFound)),
            |_| -> Result<(), ()> { panic!("it was not seen again") },
            |_| panic!("it was not bound"),
        )
        .err()
        .unwrap();
    let WorkerDirectoryNodeFailureBindingError::Reverification { evidence, .. } = held else {
        panic!("it was not seen again");
    };
    let held = evidence
        .bind_retained_creation_evidence_after_reverify(
            |_| {
                Ok(WorkerDirectoryNodeObservation::new(
                    path(r"C:\profile\support"),
                    WorkerDirectoryNodeDisposition::Created,
                    identity(100),
                ))
            },
            |_| Err::<(), _>("refused"),
            |_| panic!("it was not bound"),
        )
        .err()
        .unwrap();
    let WorkerDirectoryNodeFailureBindingError::Binding { evidence, error } = held else {
        panic!("it was seen again");
    };
    assert_eq!(error, "refused");
    assert_eq!(evidence.retained_creation_evidence_count(), 1);

    let nothing: WorkerDirectoryNodeCreationError<()> =
        WorkerDirectoryNodeCreationError::native(PrivilegeError::Single(native(ErrorKind::Other)));
    assert!(matches!(
        nothing.bind_retained_creation_evidence_after_reverify(
            |_| panic!("nothing is held"),
            |_| -> Result<(), ()> { panic!("nothing is held") },
            |_| panic!("nothing is held"),
        ),
        Err(WorkerDirectoryNodeFailureBindingError::NoRetainedEvidence { .. })
    ));
}

#[test]
fn a_failed_layout_is_bound_only_after_it_was_seen_again() {
    let mut volume = Volume::new(&["profile", "support", "root"], 1, 1);
    let (failure, evidence, _) = run_layout(&mut volume, WorkerMutationControl::new(Some(2), None));
    let failed = create_worker_directory_layout(
        &layout(),
        &passed(),
        ran(failure, evidence, Ok(())),
        (),
    )
    .err()
    .unwrap();
    assert!(failed.retained_creation_evidence_count() > 0);
    assert!(matches!(
        failed.bind_retained_creation_evidence_after_reverify(
            |_| Err(native(ErrorKind::NotFound)),
            |_| -> Result<(), ()> { panic!("it was not seen again") },
        ),
        Err(WorkerDirectoryFailureBindingError::Reverification(_))
    ));
    let nothing: WorkerDirectoryCreationError<()> =
        WorkerDirectoryCreationError::native(PrivilegeError::Single(native(ErrorKind::Other)));
    assert!(matches!(
        nothing.bind_retained_creation_evidence_after_reverify(
            |_| panic!("nothing is held"),
            |_| -> Result<(), ()> { panic!("nothing is held") },
        ),
        Err(WorkerDirectoryFailureBindingError::NoRetainedEvidence)
    ));
}

#[test]
fn a_second_run_finds_what_the_first_made() {
    let mut volume = Volume::new(&["profile", "support", "root"], 1, 1);
    let shown = |volume: &mut Volume| {
        let (failure, evidence, _) = run_layout(volume, FREE);
        assert_eq!(failure, None);
        let creation =
            create_worker_directory_layout(&layout(), &passed(), ran(None, evidence, Ok(())), ())
                .ok()
                .unwrap();
        creation
            .nodes
            .iter()
            .map(|node| (node.disposition(), node.identity(), node.path().clone()))
            .collect::<Vec<_>>()
    };
    let first = shown(&mut volume);
    assert_eq!(volume.made.len(), 7);
    let second = shown(&mut volume);
    assert_eq!(volume.made.len(), 7);
    assert_eq!(first.len(), 6);
    for (made, found) in first.iter().zip(&second) {
        assert_eq!(made.0, WorkerDirectoryNodeDisposition::Created);
        assert_eq!(found.0, WorkerDirectoryNodeDisposition::Existing);
        assert_eq!(made.1, found.1);
        assert_eq!(made.2, found.2);
    }
    let root = path(r"C:\profile\support\root");
    assert_eq!(first[0].2, root);
    for (seen, name) in first[1..].iter().zip(CHILDREN) {
        assert_eq!(seen.2, root.join(&units(name)));
    }
}

#[test]
fn only_what_is_missing_is_made() {
    let mut volume = Volume::new(&["profile", "support", "root"], 1, 3);
    for ordinal in [1, 4] {
        let place = volume.target(WorkerTarget::Child { ordinal });
        volume.directories.insert(place, 50 + ordinal as u8);
    }
    let (failure, evidence, _) = run_layout(&mut volume, FREE);
    assert_eq!(failure, None);
    let expected: Vec<Vec<String>> = [0, 2, 3]
        .iter()
        .map(|ordinal| volume.target(WorkerTarget::Child { ordinal: *ordinal }))
        .collect();
    assert_eq!(volume.made, expected);
    let WorkerMutationEvidence::Complete { root, children, .. } = evidence else {
        panic!("it was made");
    };
    assert_eq!(root.disposition, WorkerDirectoryNodeDisposition::Existing);
    let existing: Vec<bool> = children
        .iter()
        .map(|child| child.disposition == WorkerDirectoryNodeDisposition::Existing)
        .collect();
    assert_eq!(existing, [false, true, false, false, true]);
}

#[test]
fn nothing_is_made_outside_the_layout() {
    assert_eq!(
        check_worker_directory_node(&layout(), WorkerDirectoryNode::Support { ordinal: 0 }),
        Ok(())
    );
    assert_eq!(
        check_worker_directory_node(&layout(), WorkerDirectoryNode::Support { ordinal: 1 }),
        Err(denied("worker directory node is outside the closed materialization set"))
    );
}

#[test]
fn node_targets_follow_the_layout() {
    let plan = |node| NodePlan {
        component_count: 3,
        first_creatable: 1,
        node,
        control: FREE,
    };
    let root = path(r"C:\profile\support\root");
    for (node, target, place) in [
        (
            WorkerDirectoryNode::Support { ordinal: 0 },
            WorkerTarget::Component { index: 1 },
            r"C:\profile\support",
        ),
        (
            WorkerDirectoryNode::Root,
            WorkerTarget::Component { index: 2 },
            r"C:\profile\support\root",
        ),
        (
            WorkerDirectoryNode::Artifacts,
            WorkerTarget::Child { ordinal: 3 },
            r"C:\profile\support\root\artifacts",
        ),
    ] {
        assert_eq!(worker_node_target(&plan(node)), Ok(target));
        assert!(worker_target_path(&root, target).same_as(&path(place)));
    }
    assert!(worker_node_target(&plan(WorkerDirectoryNode::Support { ordinal: 1 })).is_err());
}

#[test]
fn a_lock_is_for_one_place_in_one_spelling() {
    let key = worker_layout_lock_key(
        &WorkerDirectoryIdentity::from_windows(0x0102_0304_0506_0708, [9; 16]),
        &[units("AB")],
    )
    .unwrap();
    let mut expected = vec![8, 7, 6, 5, 4, 3, 2, 1];
    expected.extend([9; 16]);
    expected.extend([2, 0, 0, 0, b'A', 0, b'B', 0]);
    assert_eq!(key, expected);
    assert_ne!(
        worker_layout_lock_key(&identity(1), &[units("A"), units("B")]).unwrap(),
        worker_layout_lock_key(&identity(1), &[units("AB")]).unwrap()
    );
    assert_eq!(
        worker_layout_lock_name(b"abc"),
        "Global\\Styrn.WorkerLayout.ba7816bf8f01cfea414140de5dae2223b00361a396177a9cb410ff61f20015ad"
    );
    assert_eq!(
        sha256_text(b""),
        "e3b0c44298fc1c149afbf4c8996fb92427ae41e4649b934ca495991b7852b855"
    );
    assert!(accept_lock_wait(WAIT_OBJECT_0, native(ErrorKind::Other)).is_ok());
    assert!(accept_lock_wait(WAIT_ABANDONED_0, native(ErrorKind::Other)).is_ok());
    assert!(accept_lock_wait(0x102, native(ErrorKind::Other)).is_err());
}

#[test]
fn existing_components_are_spelled_as_the_volume_has_them() {
    let logical = [units("SUPPORT"), units("Root")];
    assert!(matches!(
        normalized_worker_lock_suffix(&logical, &[]),
        SuffixStep::Open { index: 0 }
    ));
    let first = SuffixReply::Opened(Ok(units(r"\\?\C:\profile\support")));
    let second = SuffixReply::NotOpened(native(ErrorKind::NotFound));
    let SuffixStep::Next(spelled) = normalized_worker_lock_suffix(&logical, &[first, second]) else {
        panic!("both were looked for");
    };
    assert_eq!(spelled, vec![units("support"), units("Root")]);
    assert_eq!(
        final_worker_component_name(&units(r"C:\a\b")).unwrap(),
        units("b")
    );
    assert!(final_worker_component_name(&units(r"C:\a\")).is_err());
}

#[test]
fn a_lock_anchor_is_checked_from_the_volume_down() {
    let mut volume = Volume::new(&["profile", "support"], 1, 2);
    let mut replies = Vec::new();
    let anchor = loop {
        match prepare_worker_lock_anchor(2, false, &replies) {
            WorkerStep::Ask(action) => {
                let reply = volume.answer(replies.len(), action);
                replies.push(reply);
            }
            WorkerStep::Fail(failure) => panic!("{failure:?}"),
            WorkerStep::Next(anchor) => break anchor,
        }
    };
    assert_eq!(anchor.identity, identity(2));
}

#[test]
fn creation_starts_below_the_anchor() {
    let compare = |left: &[u16], right: &[u16]| if left == right { 2 } else { 1 };
    let folder = |text: &str| FolderFacts {
        units: units(text),
        full: Some(units(text)),
    };
    let start = worker_creation_start(
        &folder(r"C:\profile\support\root"),
        &CreationPolicyFacts::CreateMissingFrom {
            anchor: folder(r"C:\profile"),
        },
        &compare,
    )
    .ok()
    .unwrap();
    assert_eq!(start.first_creatable, 1);
    assert_eq!(start.root.components.len(), 3);
    let existing = worker_creation_start(
        &folder(r"C:\profile\support\root"),
        &CreationPolicyFacts::ExistingParent {
            allow_untrusted_parent_create: true,
        },
        &compare,
    )
    .ok()
    .unwrap();
    assert_eq!(existing.first_creatable, 2);
    assert!(existing.allow_untrusted_parent_create);
    assert!(worker_creation_start(
        &folder(r"C:\profile\support\root"),
        &CreationPolicyFacts::CreateMissingFrom {
            anchor: folder(r"C:\elsewhere"),
        },
        &compare,
    )
    .is_err());
}

const SYSTEM: SidRoles = SidRoles {
    system: true,
    administrators: false,
    trusted_installer: false,
    worker: false,
};
const ADMINISTRATORS: SidRoles = SidRoles {
    system: false,
    administrators: true,
    trusted_installer: false,
    worker: false,
};
const WORKER: SidRoles = SidRoles {
    system: false,
    administrators: false,
    trusted_installer: false,
    worker: true,
};

fn healthy_facts() -> InspectionFacts {
    let full = |sid| RawAce {
        kind: 0,
        flags: 3,
        mask: 0x001f_01ff,
        sid,
    };
    InspectionFacts {
        principal: Ok(()),
        path: Ok(()),
        opened: Ok(()),
        rules: Ok(()),
        descriptor: SecurityFacts {
            query: Ok(()),
            has_owner: true,
            has_dacl: true,
            identity_failure: None,
            control: Ok(0x1000),
            owner: WORKER,
            entries: Ok(vec![full(SYSTEM), full(ADMINISTRATORS), full(WORKER)]),
        },
        owner_is_management: false,
        identity: Ok(identity(4)),
        reopened: Ok(identity(4)),
    }
}

#[test]
fn an_inspection_tells_absent_healthy_and_conflicting_apart() {
    let node = WorkerDirectoryNode::Jobs;
    assert_eq!(
        inspect_worker_directory_node(&layout(), node, &healthy_facts()),
        WorkerDirectoryNodeInspection::Healthy
    );
    let mut absent = healthy_facts();
    absent.opened = Err(native(ErrorKind::NotFound));
    assert_eq!(
        inspect_worker_directory_node(&layout(), node, &absent),
        WorkerDirectoryNodeInspection::Absent
    );
    let mut moved = healthy_facts();
    moved.reopened = Ok(identity(5));
    assert_eq!(
        inspect_worker_directory_node(&layout(), node, &moved),
        WorkerDirectoryNodeInspection::Conflict(
            WorkerDirectoryInspectionIssue::UnsafeOrConflictingState
        )
    );
    let mut drifted = healthy_facts();
    drifted.principal = Err(denied("drifted"));
    assert_eq!(
        inspect_worker_directory_node(&layout(), node, &drifted),
        WorkerDirectoryNodeInspection::Unknowable(WorkerDirectoryInspectionIssue::PrincipalDrift)
    );
    assert_eq!(
        classify_worker_directory_inspection_error(PlatformError::Native {
            kind: ErrorKind::Other,
            code: Some(31),
        }),
        WorkerDirectoryNodeInspection::Unknowable(
            WorkerDirectoryInspectionIssue::ObservationUnavailable
        )
    );
    let missing = OsStatus {
        code: 2,
        kind: ErrorKind::NotFound,
    };
    assert_eq!(
        classify_worker_directory_inspection_error(missing.failure()),
        WorkerDirectoryNodeInspection::Absent
    );
}

#[test]
fn failures_on_purpose_say_after_how_many_directories() {
    let control = WorkerMutationControl::new(Some(2), Some(3));
    assert_eq!(control.fail_if_requested(1), Ok(()));
    let canonical = control.fail_if_requested(2).unwrap_err();
    assert_eq!(canonical.kind(), ErrorKind::Other);
    assert_eq!(canonical.raw_os_error(), None);
    assert_eq!(
        canonical.message().unwrap(),
        "injected worker mutation failure after 2 created canonical nodes"
    );
    let native_failure = control.fail_after_native_create_if_requested(3).unwrap_err();
    assert_eq!(
        native_failure.message().unwrap(),
        "injected failure after retaining 3 native worker directory creations"
    );
    let later = WorkerMutationControl::new(Some(4), None).fail_if_requested(4).unwrap_err();
    assert_ne!(canonical, later);
    assert_eq!(denied("no").message().unwrap(), "no");
    assert_eq!(native(ErrorKind::Other).message(), None);
}

#[test]
fn evidence_of_an_unknown_node_is_not_retired() {
    assert!(retire_succeeded_worker_directory_evidence(&layout(), WorkerDirectoryNode::Root).is_ok());
    assert!(retire_succeeded_worker_directory_evidence(
        &layout(),
        WorkerDirectoryNode::Support { ordinal: 9 }
    )
    .is_err());
}

#[test]
fn a_moved_anchor_is_noticed() {
    let facts = |reopened| LockFacts {
        principal: Ok(()),
        anchor: identity(1),
        reopened,
    };
    assert!(reverify_path_identity(&facts(Ok(identity(1)))).is_ok());
    assert_eq!(
        reverify_path_identity(&facts(Ok(identity(2))))
            .unwrap_err()
            .kind(),
        ErrorKind::PermissionDenied
    );
}

#[test]
fn a_lease_is_released_only_over_unchanged_directories() {
    let facts = LockFacts {
        principal: Ok(()),
        anchor: identity(1),
        reopened: Ok(identity(1)),
    };
    let record = NodeRecord {
        target: WorkerTarget::Component { index: 1 },
        directory: WorkerDirectoryRef::Opened { at: 0 },
        disposition: WorkerDirectoryNodeDisposition::Existing,
        identity: identity(7),
    };
    let observation = WorkerDirectoryNodeObservation::new(
        path(r"C:\profile\root"),
        WorkerDirectoryNodeDisposition::Existing,
        identity(7),
    );
    let check = |seen: u8| {
        let mut replies: Vec<WorkerReply> = Vec::new();
        loop {
            match reverify_worker_directory_lease(
                &facts,
                &[record],
                std::slice::from_ref(&observation),
                &replies,
            ) {
                WorkerStep::Ask(_) => replies.push(WorkerReply {
                    result: Ok(()),
                    identity: identity(seen),
                }),
                WorkerStep::Fail(_) => return false,
                WorkerStep::Next(()) => return true,
            }
        }
    };
    assert!(check(7));
    assert!(!check(8));
}

#[test]
fn a_made_directory_is_released_only_where_it_was_made() {
    let facts = LockFacts {
        principal: Ok(()),
        anchor: identity(1),
        reopened: Ok(identity(1)),
    };
    let created = RetainedCreatedWorkerDirectory {
        target: WorkerTarget::Component { index: 1 },
        parent: WorkerDirectoryRef::Anchor,
        directory: WorkerDirectoryRef::Opened { at: 2 },
        identity: Some(identity(7)),
    };
    let check = |place: &str, seen: u8| {
        let observation = WorkerDirectoryNodeObservation::new(
            path(place),
            WorkerDirectoryNodeDisposition::Created,
            identity(7),
        );
        let mut replies: Vec<WorkerReply> = Vec::new();
        loop {
            match reverify_worker_directory_node_lease(
                &facts,
                &created,
                &path(r"C:\profile\root"),
                &observation,
                &replies,
            ) {
                WorkerStep::Ask(_) => replies.push(WorkerReply {
                    result: Ok(()),
                    identity: identity(seen),
                }),
                WorkerStep::Fail(_) => return false,
                WorkerStep::Next(()) => return true,
            }
        }
    };
    assert!(check(r"C:\profile\root", 7));
    assert!(!check(r"C:\profile\other", 7));
    assert!(!check(r"C:\profile\root", 8));
}

#[test]
fn evidence_counts_what_it_holds() {
    let mut created = CreatedWorkerDirectoryEvidence::new();
    created.created.push(RetainedCreatedWorkerDirectory {
        target: WorkerTarget::Component { index: 0 },
        parent: WorkerDirectoryRef::Anchor,
        directory: WorkerDirectoryRef::Opened { at: 0 },
        identity: None,
    });
    let evidence = WorkerDirectoryFailureEvidence { created, lease: () };
    assert_eq!(evidence.retained_count(), 1);
    assert_eq!(evidence.unresolved_count(), 1);
}

#[test]
fn handles_are_judged_by_status_and_attributes() {
    assert_eq!(component_byte_length(&units("abc")), Ok(6));
    assert!(component_byte_length(&vec![65; 40000]).is_err());
    assert_ne!(
        worker_directory_access(true, true),
        worker_directory_access(false, false)
    );
    assert!(opened_worker_directory(0, true, native(ErrorKind::Other)).is_ok());
    assert_eq!(
        opened_worker_directory(0, false, native(ErrorKind::Other))
            .unwrap_err()
            .kind(),
        ErrorKind::InvalidData
    );
    assert_eq!(
        opened_worker_directory(-1, false, native(ErrorKind::NotFound)),
        Err(native(ErrorKind::NotFound))
    );
    assert_eq!(
        worker_directory_identity(Ok(0x10), Ok(identity(3))),
        Ok(identity(3))
    );
    for attributes in [0x410, 0x20] {
        assert!(worker_directory_identity(Ok(attributes), Ok(identity(3))).is_err());
    }
    let unix = WorkerDirectoryIdentity::from_unix(5, 0x0102_0304);
    assert_eq!(unix.volume, 5);
    assert_eq!(unix.file_id[..8], 0x0102_0304_u64.to_ne_bytes());
    assert_eq!(unix.file_id[8..], [0; 8]);
    assert!(unix.same_as(&WorkerDirectoryIdentity::from_unix(5, 0x0102_0304)));
    assert!(!unix.same_as(&WorkerDirectoryIdentity::from_unix(5, 0x0102_0305)));
}
