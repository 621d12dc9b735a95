use styrn::dedicated::{
    established_dedicated_account_evidence, established_dedicated_account_observation,
    inspect_dedicated_account, DedicatedAccountFactoryAuthority, DedicatedAccountIssue,
    DedicatedAccountObservation, DedicatedAccountSpec, NativeDedicatedAccountInspection,
    NativeDedicatedAccountObservation, DEDICATED_ACCOUNT_NAME_ERROR,
};
use styrn::error::{ErrorKind, PlatformError};
use styrn::layout::InstallationScope;
use styrn::principal::{PrincipalKind, WorkerAccountPolicy, WorkerIsolation, WorkerPrincipal};
use styrn::unix_context::{
    parse_sudo_origin_entries, select_unix_execution, validate_unix_caller_ids, SetupHostPrivilege,
    UnixCallerIds, UnixExecutionSelection, UnixOriginalIdentity,
};
use styrn::windows_account::{
    account_is_local_administrator, classify_dedicated_account_record,
    classify_dedicated_profile_contents, resolve_named_worker_principal, verify_worker_principal,
    AccountFacts, DedicatedProfileState, GroupFacts, WindowsDedicatedAccountRecord,
    NERR_USER_NOT_FOUND, UF_ACCOUNTDISABLE, UF_NORMAL_ACCOUNT, USER_PRIV_USER,
};
use styrn::worker_root::{validate_revalidated_worker_principal, validate_user_scope_principal};

fn message(error: &PlatformError) -> &'static str {
    match error {
        PlatformError::Policy { message, .. } => message,
        _ => panic!("the error comes from the system: {error:?}"),
    }
}

fn native(kind: ErrorKind) -> PlatformError {
    PlatformError::Native { kind, code: None }
}

fn principal(kind: PrincipalKind, id: &str, name: &str, policy: WorkerAccountPolicy) -> WorkerPrincipal {
    WorkerPrincipal::new(kind, id, name, policy).unwrap()
}

#[test]
fn stable_principal_syntax_is_closed_and_rejects_privileged_ids() {
    assert!(WorkerPrincipal::new(
        PrincipalKind::UnixUid,
        "501",
        "123-build$",
        WorkerAccountPolicy::CurrentUser,
    )
    .is_ok());
    for id in ["", "0", "0501", "4294967296", "-1"] {
        assert!(
            WorkerPrincipal::new(
                PrincipalKind::UnixUid,
                id,
                "worker",
                WorkerAccountPolicy::CurrentUser,
            )
            .is_err(),
            "{id}"
        );
    }
    assert!(WorkerPrincipal::new(
        PrincipalKind::WindowsSid,
        "S-1-5-21-1-2-3-1001",
        "build.agent$",
        WorkerAccountPolicy::CurrentUser,
    )
    .is_ok());
    for id in [
        "S-1-5-18",
        "s-1-5-21-1",
        "S-01-5-21-1",
        "S-1-05-21-1",
        "S-1-5",
        "S-1-281474976710656-1",
    ] {
        assert!(
            WorkerPrincipal::new(
                PrincipalKind::WindowsSid,
                id,
                "worker",
                WorkerAccountPolicy::CurrentUser,
            )
            .is_err(),
            "{id}"
        );
    }
    for name in [
        "",
        " worker",
        "worker ",
        "worker\nname",
        "a/b",
        "a\\b",
        "a:b",
    ] {
        assert!(WorkerPrincipal::new(
            PrincipalKind::UnixUid,
            "501",
            name,
            WorkerAccountPolicy::CurrentUser,
        )
        .is_err());
    }
}

#[test]
fn worker_principal_policy_is_intrinsic_and_named_lookup_requires_it() {
    let current = principal(
        PrincipalKind::WindowsSid,
        "S-1-5-21-1-2-3-1001",
        "build-agent",
        WorkerAccountPolicy::CurrentUser,
    );
    assert_eq!(current.account_policy(), WorkerAccountPolicy::CurrentUser);
    assert_eq!(current.isolation(), WorkerIsolation::SharedUser);

    let dedicated = resolve_named_worker_principal(
        current.name(),
        Ok(principal(
            PrincipalKind::WindowsSid,
            "S-1-5-21-1-2-3-1001",
            "build-agent",
            WorkerAccountPolicy::Dedicated,
        )),
    )
    .unwrap();
    assert_eq!(dedicated.account_policy(), WorkerAccountPolicy::Dedicated);
    assert_eq!(dedicated.isolation(), WorkerIsolation::DedicatedAccount);
    assert!(!current.same_as(&dedicated));
}

#[test]
fn dedicated_account_spec_rejects_ambiguous_or_literal_assumptions() {
    for valid in ["build-agent", "ci_worker", "worker7", "styrn"] {
        let spec = DedicatedAccountSpec::new(valid).unwrap();
        assert_eq!(spec.name(), valid);
    }

    let oversized = "a".repeat(257);
    for invalid in [
        "",
        ".",
        "..",
        "-worker",
        " worker",
        "worker ",
        "worker\0name",
        "worker/name",
        "worker\\name",
        "worker:name",
        "worker@example",
        oversized.as_str(),
    ] {
        let error = match DedicatedAccountSpec::new(invalid) {
            Ok(_) => panic!("{invalid:?} unexpectedly passed validation"),
            Err(error) => error,
        };
        assert_eq!(error.kind(), ErrorKind::InvalidInput, "{invalid:?}");
        assert_eq!(message(&error), DEDICATED_ACCOUNT_NAME_ERROR, "{invalid:?}");
        if !invalid.is_empty() {
            assert!(!message(&error).contains(invalid), "{invalid:?}");
        }
    }
}

fn synthetic_dedicated_principal(id: u32, name: &str) -> WorkerPrincipal {
    principal(
        PrincipalKind::WindowsSid,
        &format!("S-1-5-21-100-200-300-{id}"),
        name,
        WorkerAccountPolicy::Dedicated,
    )
}

#[test]
fn dedicated_account_observation_distinguishes_every_closed_state() {
    let selected = synthetic_dedicated_principal(42001, "build-agent");

    assert!(matches!(
        inspect_dedicated_account(
            DedicatedAccountSpec::new("build-agent").unwrap(),
            NativeDedicatedAccountObservation::Absent,
        ),
        DedicatedAccountObservation::Absent,
    ));
    assert!(matches!(
        inspect_dedicated_account(
            DedicatedAccountSpec::new("build-agent").unwrap(),
            NativeDedicatedAccountObservation::PresentBroken,
        ),
        DedicatedAccountObservation::PresentBroken(DedicatedAccountIssue::IncompatiblePosture),
    ));
    assert!(matches!(
        inspect_dedicated_account(
            DedicatedAccountSpec::new("build-agent").unwrap(),
            NativeDedicatedAccountObservation::Unknowable,
        ),
        DedicatedAccountObservation::Unknowable(DedicatedAccountIssue::ObservationUnavailable),
    ));

    let observation = inspect_dedicated_account(
        DedicatedAccountSpec::new("build-agent").unwrap(),
        NativeDedicatedAccountObservation::PresentHealthy(selected.clone()),
    );
    let DedicatedAccountObservation::PresentHealthy(handle) = observation else {
        panic!("healthy native posture did not produce an opaque handle");
    };
    let shared_handle = handle.clone();
    let authority = DedicatedAccountFactoryAuthority::for_test();
    handle
        .reverify_and_bind(
            &authority,
            NativeDedicatedAccountObservation::PresentHealthy(selected.clone()),
            |verified| {
                assert_eq!(verified.principal().name(), "build-agent");
                assert_eq!(
                    verified.principal().account_policy(),
                    WorkerAccountPolicy::Dedicated
                );
            },
        )
        .unwrap();
    shared_handle
        .reverify_and_bind(
            &authority,
            NativeDedicatedAccountObservation::PresentHealthy(selected),
            |verified| {
                assert_eq!(verified.principal().name(), "build-agent");
            },
        )
        .unwrap();
}

#[test]
fn dedicated_account_binding_reverification_rejects_posture_and_identity_drift() {
    let expected = synthetic_dedicated_principal(42001, "build-agent");
    let replacement = synthetic_dedicated_principal(42002, "build-agent");
    let authority = DedicatedAccountFactoryAuthority::for_test();

    for (revalidation, expected_issue) in [
        (
            NativeDedicatedAccountObservation::PresentHealthy(replacement),
            DedicatedAccountIssue::IdentityDrift,
        ),
        (
            NativeDedicatedAccountObservation::Absent,
            DedicatedAccountIssue::IdentityDrift,
        ),
        (
            NativeDedicatedAccountObservation::PresentBroken,
            DedicatedAccountIssue::IncompatiblePosture,
        ),
        (
            NativeDedicatedAccountObservation::Unknowable,
            DedicatedAccountIssue::ObservationUnavailable,
        ),
    ] {
        let observation = inspect_dedicated_account(
            DedicatedAccountSpec::new("build-agent").unwrap(),
            NativeDedicatedAccountObservation::PresentHealthy(expected.clone()),
        );
        let DedicatedAccountObservation::PresentHealthy(handle) = observation else {
            panic!("healthy native posture did not produce an opaque handle");
        };
        assert_eq!(
            handle
                .reverify_and_bind(&authority, revalidation, |_| ())
                .unwrap_err(),
            expected_issue,
        );
    }
}

#[test]
fn a_drifted_account_is_never_handed_on() {
    let expected = synthetic_dedicated_principal(42001, "build-agent");
    let authority = DedicatedAccountFactoryAuthority::for_test();
    let drifted = || {
        [
            NativeDedicatedAccountObservation::PresentHealthy(synthetic_dedicated_principal(
                42002,
                "build-agent",
            )),
            NativeDedicatedAccountObservation::Absent,
            NativeDedicatedAccountObservation::PresentBroken,
            NativeDedicatedAccountObservation::Unknowable,
        ]
    };
    let DedicatedAccountObservation::PresentHealthy(handle) = inspect_dedicated_account(
        DedicatedAccountSpec::new("build-agent").unwrap(),
        NativeDedicatedAccountObservation::PresentHealthy(expected),
    ) else {
        panic!("a healthy account has a handle");
    };
    for observation in drifted() {
        assert!(handle
            .reverify_and_bind(&authority, observation, |_| panic!("it drifted"))
            .is_err());
    }
    for observation in drifted() {
        assert!(handle
            .reverify_and_bind_for_action(observation, |_| panic!("it drifted"))
            .is_err());
    }
    for observation in drifted() {
        assert!(handle
            .reverify_and_bind_for_manifest(observation, |_| panic!("it drifted"))
            .is_err());
    }
}

fn evidence_spec() -> DedicatedAccountSpec {
    DedicatedAccountSpec::new("build-agent").unwrap()
}

#[test]
fn dedicated_account_binding_requires_exact_established_evidence_on_a_new_inspection() {
    let spec = DedicatedAccountSpec::new("build-agent").unwrap();
    let adopted = synthetic_dedicated_principal(1001, "build-agent");
    let authority = DedicatedAccountFactoryAuthority::for_test();
    let evidence = authority.established_evidence_for_test(&spec, adopted.clone());
    let observation = established_dedicated_account_observation(
        spec,
        &evidence,
        NativeDedicatedAccountObservation::PresentHealthy(adopted.clone()),
    );
    let DedicatedAccountObservation::PresentHealthy(handle) = observation else {
        panic!("exact protected evidence did not authorize established observation");
    };
    let extracted = handle
        .reverify_and_bind(
            &authority,
            NativeDedicatedAccountObservation::PresentHealthy(adopted.clone()),
            |verified| verified.principal().clone(),
        )
        .unwrap();
    assert!(extracted.same_as(&adopted));

    let wrong_principal = synthetic_dedicated_principal(1002, "build-agent");
    let wrong_evidence = authority.established_evidence_for_test(&evidence_spec(), wrong_principal);
    assert!(matches!(
        established_dedicated_account_observation(
            evidence_spec(),
            &wrong_evidence,
            NativeDedicatedAccountObservation::PresentHealthy(adopted.clone()),
        ),
        DedicatedAccountObservation::PresentBroken(DedicatedAccountIssue::IdentityDrift),
    ));

    let other_spec = DedicatedAccountSpec::new("other-worker").unwrap();
    let substituted_selector =
        authority.established_evidence_for_test(&other_spec, adopted.clone());
    assert!(matches!(
        established_dedicated_account_observation(
            evidence_spec(),
            &substituted_selector,
            NativeDedicatedAccountObservation::PresentHealthy(adopted),
        ),
        DedicatedAccountObservation::PresentBroken(DedicatedAccountIssue::IncompatiblePosture),
    ));
}

#[test]
fn unix_caller_policy_accepts_only_equal_nonroot_ids() {
    assert_eq!(validate_unix_caller_ids(501, 501).unwrap(), 501);
    for (real, effective) in [(0, 0), (501, 0), (0, 501), (501, 502)] {
        assert!(validate_unix_caller_ids(real, effective).is_err());
    }
}

#[test]
fn unix_authorization_uses_stable_uid_not_account_name() {
    let first = WorkerPrincipal::new(
        PrincipalKind::UnixUid,
        "501",
        "same-name",
        WorkerAccountPolicy::CurrentUser,
    )
    .unwrap();
    let replacement = WorkerPrincipal::new(
        PrincipalKind::UnixUid,
        "502",
        "same-name",
        WorkerAccountPolicy::CurrentUser,
    )
    .unwrap();
    assert_eq!(first.unix_uid().unwrap(), 501);
    assert_eq!(replacement.unix_uid().unwrap(), 502);
}

#[test]
fn worker_principal_revalidation_rejects_id_name_deletion_and_current_user_drift() {
    let expected = WorkerPrincipal::new(
        PrincipalKind::UnixUid,
        "501",
        "selected-worker",
        WorkerAccountPolicy::CurrentUser,
    )
    .unwrap();
    let reused = WorkerPrincipal::new(
        PrincipalKind::UnixUid,
        "501",
        "replacement",
        WorkerAccountPolicy::CurrentUser,
    )
    .unwrap();
    let renamed = WorkerPrincipal::new(
        PrincipalKind::UnixUid,
        "501",
        "renamed-worker",
        WorkerAccountPolicy::CurrentUser,
    )
    .unwrap();
    let different = WorkerPrincipal::new(
        PrincipalKind::UnixUid,
        "502",
        "different-worker",
        WorkerAccountPolicy::CurrentUser,
    )
    .unwrap();

    assert!(validate_revalidated_worker_principal(
        InstallationScope::System,
        &expected,
        Ok(reused),
        None,
    )
    .is_err());
    assert!(validate_revalidated_worker_principal(
        InstallationScope::System,
        &expected,
        Ok(renamed),
        None,
    )
    .is_err());
    assert!(validate_revalidated_worker_principal(
        InstallationScope::System,
        &expected,
        Err(native(ErrorKind::NotFound)),
        None,
    )
    .is_err());
    assert!(validate_revalidated_worker_principal(
        InstallationScope::User,
        &expected,
        Ok(expected.clone()),
        Some(&different),
    )
    .is_err());
    assert!(validate_revalidated_worker_principal(
        InstallationScope::User,
        &expected,
        Ok(expected.clone()),
        Some(&expected),
    )
    .unwrap()
    .same_as(&expected));
}

#[test]
fn unix_context_ignores_sudo_origin_when_ordinary_and_requires_it_when_root() {
    let ordinary = select_unix_execution(UnixCallerIds::new(501, 501, 20, 20), || {
        panic!("ordinary capture must not inspect SUDO_*")
    })
    .unwrap();
    assert_eq!(
        ordinary,
        UnixExecutionSelection::new(SetupHostPrivilege::Ordinary, 501, 20)
    );

    let root = select_unix_execution(UnixCallerIds::new(0, 0, 0, 0), || {
        Ok(UnixOriginalIdentity::new(501, 20))
    })
    .unwrap();
    assert_eq!(
        root,
        UnixExecutionSelection::new(SetupHostPrivilege::Root, 501, 20)
    );

    assert!(
        select_unix_execution(UnixCallerIds::new(0, 0, 0, 0), || Err(native(
            ErrorKind::NotFound
        )))
        .is_err()
    );
    assert!(
        select_unix_execution(UnixCallerIds::new(501, 0, 20, 0), || {
            Ok(UnixOriginalIdentity::new(501, 20))
        })
        .is_err()
    );
}

fn entries(pairs: &[(&str, &str)]) -> Vec<(Vec<u8>, Vec<u8>)> {
    pairs
        .iter()
        .map(|(name, value)| (name.as_bytes().to_vec(), value.as_bytes().to_vec()))
        .collect()
}

#[test]
fn sudo_origin_requires_exactly_one_consistent_value_per_field() {
    let valid = parse_sudo_origin_entries(&entries(&[
        ("SUDO_UID", "501"),
        ("SUDO_GID", "20"),
        ("SUDO_USER", "alex"),
        ("UNRELATED", "ignored"),
    ]))
    .unwrap();
    assert_eq!(valid.0.uid, 501);
    assert_eq!(valid.0.gid, 20);
    assert_eq!(valid.1, "alex");

    for invalid in [
        vec![("SUDO_UID", "501"), ("SUDO_GID", "20")],
        vec![
            ("SUDO_UID", "501"),
            ("SUDO_UID", "502"),
            ("SUDO_GID", "20"),
            ("SUDO_USER", "alex"),
        ],
        vec![
            ("SUDO_UID", "0501"),
            ("SUDO_GID", "20"),
            ("SUDO_USER", "alex"),
        ],
    ] {
        assert!(parse_sudo_origin_entries(&entries(&invalid)).is_err());
    }
}

#[test]
fn user_worker_root_rejects_a_principal_other_than_the_current_user() {
    for (selected, current) in [
        (
            principal(
                PrincipalKind::UnixUid,
                "501",
                "selected-worker",
                WorkerAccountPolicy::CurrentUser,
            ),
            principal(
                PrincipalKind::UnixUid,
                "502",
                "current-worker",
                WorkerAccountPolicy::CurrentUser,
            ),
        ),
        (
            principal(
                PrincipalKind::WindowsSid,
                "S-1-5-21-1-2-3-1001",
                "selected-worker",
                WorkerAccountPolicy::CurrentUser,
            ),
            principal(
                PrincipalKind::WindowsSid,
                "S-1-5-21-1-2-3-1002",
                "current-worker",
                WorkerAccountPolicy::CurrentUser,
            ),
        ),
    ] {
        let error = validate_user_scope_principal(&selected, &current).unwrap_err();
        assert_eq!(error.kind(), ErrorKind::PermissionDenied);
    }
}

#[test]
fn dedicated_account_spec_applies_windows_name_rules() {
    for valid in ["build-agent", "ci_worker", "worker7"] {
        assert!(DedicatedAccountSpec::new(valid).is_ok());
    }
    for invalid in ["CON", "lpt1", "abcdefghijklmnopqrstu"] {
        let error = match DedicatedAccountSpec::new(invalid) {
            Ok(_) => panic!("Windows-invalid dedicated account name was accepted"),
            Err(error) => error,
        };
        assert_eq!(message(&error), DEDICATED_ACCOUNT_NAME_ERROR);
    }
}

fn healthy_dedicated_account_record() -> WindowsDedicatedAccountRecord {
    WindowsDedicatedAccountRecord {
        principal: WorkerPrincipal::new(
            PrincipalKind::WindowsSid,
            "S-1-5-21-100-200-300-1001",
            "build-agent",
            WorkerAccountPolicy::Dedicated,
        )
        .unwrap(),
        is_local_user: true,
        is_enabled: true,
        is_locked: false,
        is_administrator: false,
        profile_configuration_matches: true,
        profile_state: DedicatedProfileState::Missing,
    }
}

fn assert_dedicated_account_broken(record: WindowsDedicatedAccountRecord) {
    let spec = DedicatedAccountSpec::new("build-agent").unwrap();
    assert!(matches!(
        classify_dedicated_account_record(
            &spec,
            record,
            NativeDedicatedAccountInspection::Initial,
        ),
        NativeDedicatedAccountObservation::PresentBroken,
    ));
}

#[test]
fn dedicated_account_observation_rejects_each_unsafe_windows_posture() {
    let spec = DedicatedAccountSpec::new("build-agent").unwrap();
    assert!(matches!(
        classify_dedicated_account_record(
            &spec,
            healthy_dedicated_account_record(),
            NativeDedicatedAccountInspection::Initial,
        ),
        NativeDedicatedAccountObservation::PresentHealthy(_),
    ));

    let mut cases = Vec::new();
    let mut wrong_kind = healthy_dedicated_account_record();
    wrong_kind.principal = WorkerPrincipal::new(
        PrincipalKind::UnixUid,
        "1001",
        "build-agent",
        WorkerAccountPolicy::Dedicated,
    )
    .unwrap();
    cases.push(wrong_kind);
    let mut nonlocal = healthy_dedicated_account_record();
    nonlocal.is_local_user = false;
    cases.push(nonlocal);
    let mut disabled = healthy_dedicated_account_record();
    disabled.is_enabled = false;
    cases.push(disabled);
    let mut locked = healthy_dedicated_account_record();
    locked.is_locked = true;
    cases.push(locked);
    let mut administrator = healthy_dedicated_account_record();
    administrator.is_administrator = true;
    cases.push(administrator);
    let mut wrong_profile = healthy_dedicated_account_record();
    wrong_profile.profile_configuration_matches = false;
    cases.push(wrong_profile);
    let mut unsafe_profile = healthy_dedicated_account_record();
    unsafe_profile.profile_state = DedicatedProfileState::Unsafe;
    cases.push(unsafe_profile);
    let mut populated_profile = healthy_dedicated_account_record();
    populated_profile.profile_state = DedicatedProfileState::PopulatedSafe;
    cases.push(populated_profile);

    for record in cases {
        assert_dedicated_account_broken(record);
    }

    let mut unavailable_profile = healthy_dedicated_account_record();
    unavailable_profile.profile_state = DedicatedProfileState::Unknowable;
    assert!(matches!(
        classify_dedicated_account_record(
            &spec,
            unavailable_profile,
            NativeDedicatedAccountInspection::Initial,
        ),
        NativeDedicatedAccountObservation::Unknowable,
    ));
}

#[test]
fn dedicated_account_binding_allows_safe_windows_profile_only_after_adoption() {
    let spec = DedicatedAccountSpec::new("build-agent").unwrap();
    let mut populated = healthy_dedicated_account_record();
    populated.profile_state = DedicatedProfileState::PopulatedSafe;
    let mut same = healthy_dedicated_account_record();
    same.profile_state = DedicatedProfileState::PopulatedSafe;
    assert!(matches!(
        classify_dedicated_account_record(
            &spec,
            populated,
            NativeDedicatedAccountInspection::Initial,
        ),
        NativeDedicatedAccountObservation::PresentBroken,
    ));
    assert!(matches!(
        classify_dedicated_account_record(
            &spec,
            same,
            NativeDedicatedAccountInspection::Established,
        ),
        NativeDedicatedAccountObservation::PresentHealthy(_),
    ));
}

#[test]
fn dedicated_profile_entry_enumeration_errors_are_unknowable() {
    assert!(matches!(
        classify_dedicated_profile_contents::<()>(None).unwrap(),
        DedicatedProfileState::EmptySafe
    ));
    assert!(matches!(
        classify_dedicated_profile_contents(Some(Ok(()))).unwrap(),
        DedicatedProfileState::PopulatedSafe
    ));
    assert!(classify_dedicated_profile_contents::<()>(Some(Err(PlatformError::Policy {
        kind: ErrorKind::Other,
        message: "injected directory-entry query failure",
    })))
    .is_err());
}

#[test]
fn promotion_evidence_is_only_for_the_dedicated_account_of_that_name() {
    assert!(established_dedicated_account_evidence(
        "build-agent",
        synthetic_dedicated_principal(1001, "build-agent"),
    )
    .is_ok());
    let wrong_name = established_dedicated_account_evidence(
        "build-agent",
        synthetic_dedicated_principal(1001, "other-agent"),
    )
    .unwrap_err();
    assert_eq!(wrong_name.kind(), ErrorKind::PermissionDenied);
    let shared = established_dedicated_account_evidence(
        "build-agent",
        principal(
            PrincipalKind::WindowsSid,
            "S-1-5-21-100-200-300-1001",
            "build-agent",
            WorkerAccountPolicy::CurrentUser,
        ),
    )
    .unwrap_err();
    assert_eq!(message(&shared), "dedicated account promotion evidence is invalid");
    let unselectable = established_dedicated_account_evidence(
        "-agent",
        synthetic_dedicated_principal(1001, "build-agent"),
    )
    .unwrap_err();
    assert_eq!(unselectable.kind(), ErrorKind::InvalidInput);
}

#[test]
fn a_principal_is_handed_on_only_while_nothing_drifted() {
    let bound = synthetic_dedicated_principal(7, "build-agent");
    let DedicatedAccountObservation::PresentHealthy(handle) = inspect_dedicated_account(
        evidence_spec(),
        NativeDedicatedAccountObservation::PresentHealthy(bound.clone()),
    ) else {
        panic!("the account is healthy");
    };
    let id = handle
        .reverify_and_bind_for_manifest(
            NativeDedicatedAccountObservation::PresentHealthy(bound.clone()),
            |principal| principal.principal_id().to_owned(),
        )
        .unwrap();
    assert_eq!(id, "S-1-5-21-100-200-300-7");
    assert_eq!(
        handle.reverify_for_adoption(NativeDedicatedAccountObservation::Absent),
        Err(DedicatedAccountIssue::IdentityDrift)
    );
    assert!(handle
        .reverify_for_adoption(NativeDedicatedAccountObservation::PresentHealthy(bound))
        .is_ok());
}

#[test]
fn principals_of_another_system_have_no_uid() {
    let windows = principal(
        PrincipalKind::WindowsSid,
        "S-1-5-21-1-2-3-1001",
        "build-agent",
        WorkerAccountPolicy::CurrentUser,
    );
    assert_eq!(
        windows.unix_uid().unwrap_err().kind(),
        ErrorKind::InvalidInput
    );
    assert_eq!(windows.principal_kind(), PrincipalKind::WindowsSid);
}

#[test]
fn the_largest_uid_and_authority_are_accepted() {
    assert!(WorkerPrincipal::new(
        PrincipalKind::UnixUid,
        "4294967295",
        "worker",
        WorkerAccountPolicy::Dedicated
    )
    .is_ok());
    assert!(WorkerPrincipal::new(
        PrincipalKind::WindowsSid,
        "S-1-281474976710655-1",
        "worker",
        WorkerAccountPolicy::Dedicated
    )
    .is_ok());
}

#[test]
fn an_incomplete_list_of_groups_tells_nothing() {
    assert_eq!(
        account_is_local_administrator(&GroupFacts {
            administrators: Ok(()),
            query: Ok(()),
            entries_read: 2,
            total_entries: 2,
            groups: Some(vec![Ok(false), Ok(true)]),
        }),
        Ok(true)
    );
    assert_eq!(
        account_is_local_administrator(&GroupFacts {
            administrators: Ok(()),
            query: Ok(()),
            entries_read: 1,
            total_entries: 1,
            groups: Some(vec![Ok(false)]),
        }),
        Ok(false)
    );
    assert!(account_is_local_administrator(&GroupFacts {
        administrators: Ok(()),
            query: Ok(()),
        entries_read: 1,
        total_entries: 2,
        groups: Some(vec![Ok(false)]),
    })
    .is_err());
    assert!(account_is_local_administrator(&GroupFacts {
        administrators: Err(native(ErrorKind::NotFound)),
        query: Ok(()),
        entries_read: 0,
        total_entries: 0,
        groups: None,
    })
    .is_err());
}

#[test]
fn a_principal_is_verified_against_the_one_that_is_looked_up_now() {
    let known = synthetic_dedicated_principal(1001, "build-agent");
    assert!(verify_worker_principal(&known, Ok(known.clone())).is_ok());
    assert!(
        verify_worker_principal(&known, Ok(synthetic_dedicated_principal(1001, "renamed")))
            .is_err()
    );
    assert!(verify_worker_principal(&known, Err(native(ErrorKind::NotFound))).is_err());
}

fn account_facts() -> AccountFacts {
    AccountFacts {
        status: 0,
        has_record: true,
        privilege: USER_PRIV_USER,
        flags: UF_NORMAL_ACCOUNT,
        native_name: Ok("build-agent".to_owned()),
        sid: Ok(()),
        resolves_to_sid: Ok(true),
        principal: Ok(synthetic_dedicated_principal(1001, "build-agent")),
        is_administrator: Ok(false),
        expected_profile: Ok(()),
        profile_matches: Ok(true),
        profile_state: Ok(DedicatedProfileState::EmptySafe),
    }
}

#[test]
fn an_account_is_judged_by_everything_that_is_known_of_it() {
    let inspect = |change: &dyn Fn(&mut AccountFacts)| {
        let mut facts = account_facts();
        change(&mut facts);
        styrn::windows_account::inspect_dedicated_account(
            &evidence_spec(),
            facts,
            NativeDedicatedAccountInspection::Initial,
        )
    };
    assert!(matches!(
        inspect(&|_| ()),
        NativeDedicatedAccountObservation::PresentHealthy(principal)
            if principal.principal_id() == "S-1-5-21-100-200-300-1001"
    ));
    assert!(matches!(
        inspect(&|facts| facts.status = NERR_USER_NOT_FOUND),
        NativeDedicatedAccountObservation::Absent
    ));
    for unknowable in [
        inspect(&|facts| facts.status = 5),
        inspect(&|facts| facts.has_record = false),
        inspect(&|facts| facts.sid = Err(native(ErrorKind::Other))),
        inspect(&|facts| facts.resolves_to_sid = Err(native(ErrorKind::NotFound))),
        inspect(&|facts| facts.is_administrator = Err(native(ErrorKind::Other))),
        inspect(&|facts| facts.profile_state = Err(native(ErrorKind::Other))),
    ] {
        assert!(matches!(
            unknowable,
            NativeDedicatedAccountObservation::Unknowable
        ));
    }
    for broken in [
        inspect(&|facts| facts.resolves_to_sid = Ok(false)),
        inspect(&|facts| facts.principal = Err(native(ErrorKind::InvalidInput))),
        inspect(&|facts| facts.is_administrator = Ok(true)),
        inspect(&|facts| facts.flags |= UF_ACCOUNTDISABLE),
        inspect(&|facts| facts.privilege = 2),
        inspect(&|facts| facts.native_name = Ok("Build-Agent".to_owned())),
        inspect(&|facts| facts.profile_matches = Ok(false)),
        inspect(&|facts| facts.profile_state = Ok(DedicatedProfileState::PopulatedSafe)),
    ] {
        assert!(matches!(
            broken,
            NativeDedicatedAccountObservation::PresentBroken
        ));
    }
}

#[test]
fn a_selected_user_is_never_root() {
    for ids in [
        UnixCallerIds::new(501, 501, 20, 20),
        UnixCallerIds::new(0, 0, 0, 0),
        UnixCallerIds::new(0, 501, 0, 20),
    ] {
        if let Ok(selection) = select_unix_execution(ids, || Ok(UnixOriginalIdentity::new(0, 0))) {
            assert_ne!(selection.uid, 0);
        }
    }
}
