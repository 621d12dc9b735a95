use styrn::authorization::{
    initialize_com_for_shell, invoke_setup_authorization, run_user_phase,
    unix_authorization_executable_metadata_is_safe, unix_authorization_invocation,
    validated_privileged_phase_arguments, verify_setup_authorization_executable,
    verify_windows_authorization_executable, AuthorizationPaths, LaunchEvent, UnixPathFacts,
    WindowsExecutableFacts, ERROR_CANCELLED, MAX_USER_PHASE_BYTES, RPC_E_CHANGED_MODE,
};
use styrn::command_line::{authorization_parameters, windows_quote_command_argument};
use styrn::error::{ErrorKind, OsStatus, PlatformError};
use styrn::principal::{PrincipalKind, WorkerAccountPolicy, WorkerPrincipal};
use styrn::privilege::{
    check_privilege, combine_privilege_errors, reconcile_windows_privileged_worker_mutation,
    restore_token_privileges_exact, validate_windows_restore_privilege_result, PrivilegeError,
    PrivilegeFacts, ThreadRestorePrivilege, WindowsPrivilegeRestorer,
    WindowsPrivilegedWorkerMutation, WindowsPrivilegedWorkerMutationResolution,
};
use styrn::store::{private_file_parent_mode_is_valid, ManifestOwner};
use styrn::unix_context::SetupHostPrivilege;
use styrn::windows_token::{
    capture_setup_execution_context, inspect_token_posture, linked_token_handle,
    select_windows_user_token, sid_last_sub_authority, token_information_size,
    windows_token_posture_from_native, TokenFacts, TokenGroup, WindowsIntegrityLevel, WindowsTokenElevationType, WindowsTokenPosture,
    WindowsUserTokenChoice, SE_GROUP_ENABLED, SE_GROUP_USE_FOR_DENY_ONLY,
};
use styrn::worker_ops::{validate_windows_worker_lock_anchor_identity, WorkerDirectoryIdentity};

fn other(message: &'static str) -> PlatformError {
    PlatformError::Policy {
        kind: ErrorKind::Other,
        message,
    }
}

fn status(code: i32) -> OsStatus {
    OsStatus {
        code,
        kind: if code == 5 {
            ErrorKind::PermissionDenied
        } else {
            ErrorKind::Other
        },
    }
}

fn units(text: &str) -> Vec<u16> {
    text.encode_utf16().collect()
}

#[test]
fn windows_restore_privilege_policy_skips_current_owner_and_rejects_not_assigned() {
    assert!(!validate_windows_restore_privilege_result(true, false, status(1300)).unwrap());
    assert!(validate_windows_restore_privilege_result(false, true, status(0)).unwrap());
    let error = validate_windows_restore_privilege_result(false, true, status(1300)).unwrap_err();
    assert_eq!(error.kind(), ErrorKind::PermissionDenied);
    assert!(validate_windows_restore_privilege_result(false, false, status(5)).is_err());
}

#[test]
fn windows_privilege_cleanup_failure_retains_zero_some_and_all_creation_evidence() {
    for evidence in [vec![], vec![11_u8, 29, 47], vec![1_u8, 2, 3, 4, 5, 6]] {
        let operation_error = if evidence.len() < 6 {
            Some(other("injected mutation failure"))
        } else {
            None
        };
        let resolution = reconcile_windows_privileged_worker_mutation(
            WindowsPrivilegedWorkerMutation {
                operation_error,
                evidence: evidence.clone(),
            },
            Err(PrivilegeError::Single(other(
                "injected exact-state restoration failure",
            ))),
        );

        let WindowsPrivilegedWorkerMutationResolution::Failure {
            operation_error,
            cleanup_error,
            evidence: retained,
        } = resolution
        else {
            panic!("cleanup failure was reported as successful creation");
        };
        assert_eq!(retained, evidence);
        assert_eq!(operation_error.is_some(), retained.len() < 6);
        assert_eq!(cleanup_error.kind(), ErrorKind::Other);
    }
}

#[test]
fn windows_privilege_restorer_supplies_the_exact_previous_state() {
    let previous = [0x00_u8, 0x11, 0x80, 0xfe, 0x7a, 0x55, 0xaa, 0xff];
    let mut restored = None;

    WindowsPrivilegeRestorer::new(previous)
        .restore(|state| {
            restored = Some(state);
            Ok::<_, std::convert::Infallible>(())
        })
        .unwrap();

    assert_eq!(restored, Some(previous));
}

#[test]
fn windows_worker_mutex_anchor_requires_the_complete_file_identity() {
    let expected = WorkerDirectoryIdentity {
        volume: 0x1020_3040_5060_7080,
        file_id: [
            0x00, 0x01, 0x02, 0x03, 0x04, 0x05, 0x06, 0x07, 0x08, 0x09, 0x0a, 0x0b, 0x0c, 0x0d,
            0x0e, 0x0f,
        ],
    };
    let mut substituted = expected;
    substituted.file_id[15] ^= 0xff;

    let error = validate_windows_worker_lock_anchor_identity(expected, substituted)
        .expect_err("a high-byte FILE_ID_INFO substitution must be rejected");

    assert_eq!(error.kind(), ErrorKind::PermissionDenied);
    assert!(validate_windows_worker_lock_anchor_identity(expected, expected).is_ok());
}

#[test]
fn windows_token_policy_uses_only_a_medium_limited_user_token() {
    let limited = WindowsTokenPosture::new(
        WindowsTokenElevationType::Limited,
        WindowsIntegrityLevel::Medium,
        Some(SE_GROUP_USE_FOR_DENY_ONLY),
    );
    let full = WindowsTokenPosture::new(
        WindowsTokenElevationType::Full,
        WindowsIntegrityLevel::High,
        Some(SE_GROUP_ENABLED),
    );
    assert_eq!(
        select_windows_user_token(limited, Some(full)).unwrap(),
        WindowsUserTokenChoice::Current
    );
    assert_eq!(
        select_windows_user_token(full, Some(limited)).unwrap(),
        WindowsUserTokenChoice::LinkedLimited
    );

    let standard = WindowsTokenPosture::new(
        WindowsTokenElevationType::Default,
        WindowsIntegrityLevel::Medium,
        None,
    );
    assert_eq!(
        select_windows_user_token(standard, None).unwrap(),
        WindowsUserTokenChoice::Current
    );

    let uac_off_admin = WindowsTokenPosture::new(
        WindowsTokenElevationType::Default,
        WindowsIntegrityLevel::High,
        Some(SE_GROUP_ENABLED),
    );
    assert!(select_windows_user_token(uac_off_admin, None).is_err());
    assert!(select_windows_user_token(full, None).is_err());
}

#[test]
fn windows_native_token_facts_are_parsed_fail_closed() {
    assert_eq!(
        windows_token_posture_from_native(3, 0x2100, Some(SE_GROUP_USE_FOR_DENY_ONLY)).unwrap(),
        WindowsTokenPosture::new(
            WindowsTokenElevationType::Limited,
            WindowsIntegrityLevel::Medium,
            Some(SE_GROUP_USE_FOR_DENY_ONLY),
        )
    );
    assert!(windows_token_posture_from_native(0, 0x2000, None).is_err());
    assert!(windows_token_posture_from_native(1, 0x5000, None).is_err());
}

#[test]
fn windows_authorization_arguments_use_command_line_to_argv_w_quoting() {
    let quote = |argument: &str| {
        String::from_utf16(
            &windows_quote_command_argument(&argument.encode_utf16().collect::<Vec<_>>()).unwrap(),
        )
        .unwrap()
    };
    assert_eq!(
        quote("C:\\Program Files\\Styrn"),
        "\"C:\\Program Files\\Styrn\""
    );
    assert_eq!(quote("a\"b"), "\"a\\\"b\"");
    assert_eq!(quote("a\\"), "\"a\\\\\"");
    assert!(windows_quote_command_argument(&[b'a' as u16, 0, b'b' as u16]).is_err());
}

fn authorization_paths(executable: &str, request: &str, current: &str) -> AuthorizationPaths {
    let components: Vec<&str> = request.split('/').collect();
    AuthorizationPaths {
        executable_is_absolute: executable.starts_with('/'),
        request_is_absolute: request.starts_with('/'),
        current_is_absolute: current.starts_with('/'),
        canonical_executable: Ok(executable.as_bytes().to_vec()),
        canonical_current: Ok(current.as_bytes().to_vec()),
        request_has_relative_component: components.contains(&".."),
        request_file_name: components.last().map(|name| name.as_bytes().to_vec()),
        request_text: Some(request.to_owned()),
    }
}

fn message(error: &PlatformError) -> &'static str {
    match error {
        PlatformError::Policy { message, .. } => message,
        _ => panic!("the error comes from the system: {error:?}"),
    }
}

#[test]
fn privileged_phase_arguments_are_fixed_and_reject_relative_paths() {
    let current = "/opt/styrn/bin/styrn";
    let request = "/tmp/authorization-request.json";
    let digest = "a".repeat(64);
    assert_eq!(
        validated_privileged_phase_arguments(
            &authorization_paths(current, request, current),
            &digest
        )
        .unwrap(),
        vec![
            "setup",
            "privileged-phase",
            "--request",
            request,
            "--digest",
            digest.as_str(),
        ]
    );
    assert!(validated_privileged_phase_arguments(
        &authorization_paths("styrn", "request.json", current),
        &digest,
    )
    .is_err());
    assert!(validated_privileged_phase_arguments(
        &authorization_paths(current, "request.json", current),
        &digest,
    )
    .is_err());
    let secret_path = "/tmp/api_key=do-not-echo/authorization-request.json";
    let error = validated_privileged_phase_arguments(
        &authorization_paths(current, secret_path, current),
        &digest,
    )
    .unwrap_err();
    assert!(!message(&error).contains("do-not-echo"));

    let invocation =
        unix_authorization_invocation(&authorization_paths(current, request, current), &digest)
            .unwrap();
    assert_eq!(invocation.program, "/usr/bin/sudo");
    let expected: Vec<Vec<u8>> = [
        "--",
        current,
        "setup",
        "privileged-phase",
        "--request",
        request,
        "--digest",
        digest.as_str(),
    ]
    .iter()
    .map(|argument| argument.as_bytes().to_vec())
    .collect();
    assert_eq!(invocation.arguments, expected);
}

#[test]
fn authorization_executable_metadata_rejects_exec_time_privilege_gain() {
    assert!(unix_authorization_executable_metadata_is_safe(
        true, 0, 0o100755
    ));
    for mode in [0o104755, 0o102755, 0o100775, 0o100644] {
        assert!(!unix_authorization_executable_metadata_is_safe(
            true, 0, mode
        ));
    }
    assert!(!unix_authorization_executable_metadata_is_safe(
        true, 501, 0o100755
    ));
    assert!(!unix_authorization_executable_metadata_is_safe(
        false, 0, 0o100755
    ));
}

#[test]
fn private_file_removal_parent_mode_is_owner_aware() {
    assert!(private_file_parent_mode_is_valid(
        ManifestOwner::User,
        0o700
    ));
    assert!(!private_file_parent_mode_is_valid(
        ManifestOwner::User,
        0o755
    ));
    assert!(private_file_parent_mode_is_valid(
        ManifestOwner::System,
        0o755
    ));
    assert!(private_file_parent_mode_is_valid(
        ManifestOwner::System,
        0o700
    ));
    assert!(!private_file_parent_mode_is_valid(
        ManifestOwner::System,
        0o775
    ));
    assert!(private_file_parent_mode_is_valid(
        ManifestOwner::CurrentProcess,
        0o755
    ));
    assert!(private_file_parent_mode_is_valid(
        ManifestOwner::CurrentProcess,
        0o700
    ));
    assert!(!private_file_parent_mode_is_valid(
        ManifestOwner::CurrentProcess,
        0o775
    ));
}

#[test]
fn requests_with_other_names_or_digests_are_refused() {
    let current = "/opt/styrn/bin/styrn";
    let request = "/tmp/authorization-request.json";
    let digest = "0f".repeat(32);
    for (paths, digest) in [
        (
            authorization_paths(current, "/tmp/other-request.json", current),
            digest.clone(),
        ),
        (
            authorization_paths(current, "/tmp/../authorization-request.json", current),
            digest.clone(),
        ),
        (authorization_paths(current, request, current), "A".repeat(64)),
        (authorization_paths(current, request, current), "a".repeat(63)),
    ] {
        assert_eq!(
            validated_privileged_phase_arguments(&paths, &digest)
                .unwrap_err()
                .kind(),
            ErrorKind::InvalidInput
        );
    }
    assert_eq!(
        validated_privileged_phase_arguments(
            &authorization_paths("/opt/other", request, current),
            &digest
        )
        .unwrap_err()
        .kind(),
        ErrorKind::PermissionDenied
    );
    let mut unreadable = authorization_paths(current, request, current);
    unreadable.canonical_executable = Err(PlatformError::Native {
        kind: ErrorKind::NotFound,
        code: Some(2),
    });
    assert_eq!(
        validated_privileged_phase_arguments(&unreadable, &digest)
            .unwrap_err()
            .raw_os_error(),
        Some(2)
    );
}

#[test]
fn joined_arguments_are_quoted_one_by_one() {
    let line = authorization_parameters(&[units("setup"), units("a b"), units("c\\\"d\\")]).unwrap();
    assert_eq!(
        String::from_utf16(&line).unwrap(),
        "\"setup\" \"a b\" \"c\\\\\\\"d\\\\\"\0"
    );
    assert_eq!(authorization_parameters(&[]).unwrap(), [0]);
    assert!(authorization_parameters(&[units("a"), vec![0]]).is_err());
}

#[test]
fn authorization_programs_must_lie_where_only_root_writes() {
    let file = || UnixPathFacts {
        is_file: true,
        is_directory: false,
        uid: 0,
        mode: 0o100755,
        path_security: Ok(()),
    };
    let directory = |mode: u32, uid: u32| {
        Ok(UnixPathFacts {
            is_file: false,
            is_directory: true,
            uid,
            mode,
            path_security: Ok(()),
        })
    };
    assert!(verify_setup_authorization_executable(
        &Ok(file()),
        &[directory(0o40755, 0), directory(0o40755, 0)]
    )
    .is_ok());
    for ancestors in [
        vec![directory(0o40775, 0)],
        vec![directory(0o40755, 501)],
        vec![Ok(file())],
    ] {
        assert!(verify_setup_authorization_executable(&Ok(file()), &ancestors).is_err());
    }
}

#[test]
fn a_windows_program_must_stay_the_one_that_runs() {
    let facts = |on_local_drive: bool, is_current: bool, is_still_current: bool| {
        WindowsExecutableFacts {
            on_local_drive,
            is_current,
            checks: vec![Ok(()), Ok(())],
            is_still_current,
        }
    };
    assert!(verify_windows_authorization_executable(&facts(true, true, true)).is_ok());
    for bad in [
        facts(false, true, true),
        facts(true, false, true),
        facts(true, true, false),
    ] {
        assert_eq!(
            verify_windows_authorization_executable(&bad)
                .unwrap_err()
                .kind(),
            ErrorKind::PermissionDenied
        );
    }
}

#[test]
fn a_launch_ends_in_an_exit_code_or_a_refusal() {
    assert_eq!(
        invoke_setup_authorization(LaunchEvent::Exited { code: 7 }),
        Ok(Some(7))
    );
    assert_eq!(
        invoke_setup_authorization(LaunchEvent::NotStarted {
            failure: PlatformError::Native {
                kind: ErrorKind::Other,
                code: Some(ERROR_CANCELLED),
            }
        })
        .unwrap_err()
        .kind(),
        ErrorKind::PermissionDenied
    );
    assert!(invoke_setup_authorization(LaunchEvent::Started { process: 31 }).is_err());
    assert_eq!(
        invoke_setup_authorization(LaunchEvent::Started { process: 4096 }),
        Ok(None)
    );
    assert!(invoke_setup_authorization(LaunchEvent::IdentityChanged).is_err());
    assert_eq!(initialize_com_for_shell(0), Ok(true));
    assert_eq!(initialize_com_for_shell(RPC_E_CHANGED_MODE), Ok(false));
    assert!(initialize_com_for_shell(-1).is_err());
}

#[test]
fn fixed_user_phase_seam_fails_closed_until_typed_protocol_execution_exists() {
    let principal = WorkerPrincipal::new(
        PrincipalKind::WindowsSid,
        "S-1-5-21-1-2-3-1001",
        "alex",
        WorkerAccountPolicy::CurrentUser,
    )
    .unwrap();
    let refusal = run_user_phase(&principal, b"{}");
    assert_eq!(refusal.kind, ErrorKind::Unsupported);
    assert_eq!(
        refusal.message,
        "native Windows user execution for alex is not implemented"
    );
    let oversized = run_user_phase(&principal, &vec![0; MAX_USER_PHASE_BYTES + 1]);
    assert_eq!(oversized.kind, ErrorKind::InvalidData);
}

fn whole_token(groups: Vec<TokenGroup>) -> TokenFacts {
    TokenFacts {
        elevation_complete: true,
        elevation_type: 2,
        integrity_complete: true,
        integrity_rid: Ok(0x3000),
        groups_complete: true,
        group_count: groups.len(),
        groups_available: groups.len(),
        groups,
    }
}

#[test]
fn a_token_is_read_whole_or_not_at_all() {
    let plain = TokenGroup {
        has_sid: true,
        is_administrators: false,
        attributes: 7,
    };
    let administrators = TokenGroup {
        has_sid: true,
        is_administrators: true,
        attributes: SE_GROUP_ENABLED,
    };
    assert_eq!(
        inspect_token_posture(&whole_token(vec![plain, administrators])).unwrap(),
        WindowsTokenPosture::new(
            WindowsTokenElevationType::Full,
            WindowsIntegrityLevel::High,
            Some(SE_GROUP_ENABLED),
        )
    );
    let mut truncated = whole_token(vec![plain]);
    truncated.group_count = 2;
    assert!(inspect_token_posture(&truncated).is_err());
    let mut nameless = whole_token(vec![plain]);
    nameless.groups[0].has_sid = false;
    assert!(inspect_token_posture(&nameless).is_err());

    assert_eq!(sid_last_sub_authority(true, Some(1), Ok(0x2000)), Ok(0x2000));
    assert!(sid_last_sub_authority(false, Some(1), Ok(0)).is_err());
    assert!(sid_last_sub_authority(true, Some(0), Ok(0)).is_err());
    assert_eq!(linked_token_handle(8, 8, Some(0x44)), Ok(0x44));
    assert_eq!(
        linked_token_handle(4, 8, Some(0x44)).unwrap_err().kind(),
        ErrorKind::InvalidData
    );
    for none in [None, Some(0)] {
        assert_eq!(
            linked_token_handle(8, 8, none).unwrap_err().kind(),
            ErrorKind::PermissionDenied
        );
    }
    assert_eq!(token_information_size(false, 40, status(122)), Ok(40));
    assert!(token_information_size(false, 40, status(5)).is_err());
}

#[test]
fn the_user_token_is_never_elevated() {
    let posture = |elevation, integrity, group| WindowsTokenPosture::new(elevation, integrity, group);
    let limited = posture(
        WindowsTokenElevationType::Limited,
        WindowsIntegrityLevel::Medium,
        Some(SE_GROUP_USE_FOR_DENY_ONLY),
    );
    let full = posture(
        WindowsTokenElevationType::Full,
        WindowsIntegrityLevel::High,
        Some(SE_GROUP_ENABLED),
    );
    assert_eq!(
        capture_setup_execution_context(full, Some(limited), limited, true),
        Ok(SetupHostPrivilege::Administrator)
    );
    assert_eq!(
        capture_setup_execution_context(limited, Some(full), limited, true),
        Ok(SetupHostPrivilege::Ordinary)
    );
    assert!(capture_setup_execution_context(full, Some(limited), full, true).is_err());
    assert!(capture_setup_execution_context(full, Some(limited), limited, false).is_err());
}

fn privilege_facts() -> PrivilegeFacts {
    PrivilegeFacts {
        process_token: Ok(()),
        thread_token: Ok(()),
        privilege_number: Ok(()),
        adjusted: true,
        last_error: status(0),
        previous_length: 16,
        state_size: 16,
        impersonating: Ok(()),
    }
}

#[test]
fn an_enabled_privilege_is_given_back_before_the_thread_reverts() {
    let enabled =
        ThreadRestorePrivilege::enable(&privilege_facts(), 5_u8, |_| panic!("it was enabled"))
            .ok()
            .unwrap();
    let mut order = Vec::new();
    let mut seen = None;
    enabled
        .restore_and_revert(
            |previous| {
                seen = Some(previous);
                Ok(())
            },
            || {
                order.push("revert");
                Ok(())
            },
        )
        .unwrap();
    assert_eq!(seen, Some(5));
    assert_eq!(order, ["revert"]);

    let mut not_impersonating = privilege_facts();
    not_impersonating.impersonating = Err(other("no impersonation"));
    let mut restored = None;
    let failure = ThreadRestorePrivilege::enable(&not_impersonating, 9_u8, |previous| {
        restored = Some(previous);
        Err(other("not given back"))
    })
    .err()
    .unwrap();
    assert_eq!(restored, Some(9));
    assert_eq!(check_privilege(&not_impersonating), Ok(()));
    let mut oversized = privilege_facts();
    oversized.previous_length = 17;
    oversized.impersonating = Err(other("no impersonation"));
    assert_eq!(
        check_privilege(&oversized).unwrap_err().kind(),
        ErrorKind::InvalidData
    );
    assert!(ThreadRestorePrivilege::enable(&oversized, 9_u8, |_| panic!("nothing was got")).is_err());
    let mut unopened = privilege_facts();
    unopened.thread_token = Err(other("no token"));
    unopened.impersonating = Err(other("no impersonation"));
    assert!(ThreadRestorePrivilege::enable(&unopened, 9_u8, |_| panic!("nothing was got")).is_err());
    assert!(matches!(failure, PrivilegeError::Combined(_)));
    assert_eq!(failure.kind(), ErrorKind::Other);
}

#[test]
fn two_privilege_failures_are_told_together() {
    let both = combine_privilege_errors("first", other("a"), "second", other("b"));
    assert_eq!(both.text("A", "B"), "first: A; second: B");
    assert_eq!(both.kind(), ErrorKind::Other);
    assert!(restore_token_privileges_exact(true, status(0)).is_ok());
    assert!(restore_token_privileges_exact(true, status(1300)).is_err());
    let refused = PlatformError::Native {
        kind: ErrorKind::PermissionDenied,
        code: Some(5),
    };
    assert_eq!(restore_token_privileges_exact(false, status(5)), Err(refused));
    assert_eq!(token_information_size(false, 40, status(5)), Err(refused));
    assert_eq!(
        validate_windows_restore_privilege_result(false, false, status(5)),
        Err(refused)
    );
    assert_eq!(
        restore_token_privileges_exact(false, status(0)),
        Err(other("Windows rejected exact restore-privilege state"))
    );
}

#[test]
fn a_settled_mutation_keeps_its_evidence() {
    let settle = |operation_error, cleanup| {
        reconcile_windows_privileged_worker_mutation(
            WindowsPrivilegedWorkerMutation {
                operation_error,
                evidence: vec![3_u8, 5],
            },
            cleanup,
        )
    };
    let WindowsPrivilegedWorkerMutationResolution::Success(kept) = settle(None, Ok(())) else {
        panic!("nothing failed");
    };
    assert_eq!(kept, [3, 5]);
    let WindowsPrivilegedWorkerMutationResolution::OperationFailure { error, evidence } =
        settle(Some(other("x")), Ok(()))
    else {
        panic!("the operation failed");
    };
    assert_eq!(error, other("x"));
    assert_eq!(evidence, [3, 5]);
}
