use styrn::acl::{
    acl_sddl, dedicated_profile_acl_is_safe, validate_acl_contract, validate_ancestor_entries,
    validate_authorization_ancestor_acl, validate_authorization_executable_acl,
    validate_user_ancestor_entries, validate_user_ancestor_owner_transition,
    validate_worker_ancestor_acl, validate_worker_creation_acl, validate_worker_sid_name_use,
    worker_creation_sddl, AceInspection, AclInspection, AclKind, Principal, UserAncestorOwner,
    CONTAINER_INHERIT_ACE, FILE_ALL_ACCESS, FILE_EXECUTE, FILE_READ, GENERIC_READ, GENERIC_WRITE,
    INHERIT_ONLY_ACE, OBJECT_INHERIT_ACE, PARENT_TAKEOVER_ACCESS, SID_TYPE_USER, SYNCHRONIZE,
};
use styrn::descriptor::{
    inspect_security_descriptor, path_is_reparse_point, require_kind, verify_trusted_worker_ancestor,
    verify_worker_directory_security, PathFacts, RawAce, SecurityFacts, SidRoles,
    INVALID_FILE_ATTRIBUTES,
};
use styrn::error::{ErrorKind, PlatformError};
use styrn::principal::{PrincipalKind, WorkerAccountPolicy, WorkerPrincipal};

#[test]
fn dedicated_profile_acl_rejects_unexpected_inherit_only_mutation() {
    let inherit_only_mutation = AceInspection {
        principal: Principal::Unexpected,
        mask: GENERIC_WRITE,
        flags: OBJECT_INHERIT_ACE | CONTAINER_INHERIT_ACE | INHERIT_ONLY_ACE,
        allowed: true,
    };
    assert!(!dedicated_profile_acl_is_safe(&[inherit_only_mutation]));

    let inherit_only_read = AceInspection {
        principal: Principal::Unexpected,
        mask: GENERIC_READ,
        flags: OBJECT_INHERIT_ACE | CONTAINER_INHERIT_ACE | INHERIT_ONLY_ACE,
        allowed: true,
    };
    assert!(dedicated_profile_acl_is_safe(&[inherit_only_read]));
}

#[test]
fn worker_creation_dacl_policy_rejects_extra_principals_and_access_masks() {
    let inherited = OBJECT_INHERIT_ACE | CONTAINER_INHERIT_ACE;
    let valid_entries = vec![
        AceInspection {
            principal: Principal::System,
            mask: FILE_ALL_ACCESS,
            flags: inherited,
            allowed: true,
        },
        AceInspection {
            principal: Principal::Administrators,
            mask: FILE_ALL_ACCESS,
            flags: inherited,
            allowed: true,
        },
        AceInspection {
            principal: Principal::Worker,
            mask: FILE_ALL_ACCESS,
            flags: inherited,
            allowed: true,
        },
    ];
    assert!(validate_worker_creation_acl(
        &AclInspection {
            owner_matches_policy: true,
            dacl_is_protected: true,
            entries: valid_entries.clone(),
        },
        false,
    )
    .is_ok());

    let mut everyone_write = valid_entries.clone();
    everyone_write.push(AceInspection {
        principal: Principal::Unexpected,
        mask: FILE_ALL_ACCESS,
        flags: inherited,
        allowed: true,
    });
    assert!(validate_worker_creation_acl(
        &AclInspection {
            owner_matches_policy: true,
            dacl_is_protected: true,
            entries: everyone_write,
        },
        false,
    )
    .is_err());

    let mut wrong_worker_mask = valid_entries;
    wrong_worker_mask[2].mask = FILE_READ;
    assert!(validate_worker_creation_acl(
        &AclInspection {
            owner_matches_policy: true,
            dacl_is_protected: true,
            entries: wrong_worker_mask,
        },
        false,
    )
    .is_err());
}

#[test]
fn system_override_ancestor_policy_rejects_untrusted_write_authority() {
    let trusted_write = AceInspection {
        principal: Principal::Worker,
        mask: FILE_ALL_ACCESS,
        flags: 0,
        allowed: true,
    };
    assert!(validate_worker_ancestor_acl(true, &[trusted_write], false).is_ok());
    let stock_system_drive_create_only = AceInspection {
        principal: Principal::Unexpected,
        mask: 0x0000_0004 | SYNCHRONIZE,
        flags: 0,
        allowed: true,
    };
    assert!(validate_worker_ancestor_acl(true, &[stock_system_drive_create_only], true,).is_ok());
    assert!(validate_worker_ancestor_acl(true, &[stock_system_drive_create_only], false,).is_err());
    let everyone_write = AceInspection {
        principal: Principal::Unexpected,
        mask: GENERIC_WRITE,
        flags: 0,
        allowed: true,
    };
    assert!(validate_worker_ancestor_acl(true, &[everyone_write], true).is_err());
    for takeover in [
        0x0000_0002,
        0x0000_0040,
        0x0001_0000,
        0x0004_0000,
        0x0008_0000,
        GENERIC_WRITE,
        0x1000_0000,
    ] {
        assert!(validate_worker_ancestor_acl(
            true,
            &[AceInspection {
                principal: Principal::Unexpected,
                mask: takeover,
                flags: 0,
                allowed: true,
            }],
            true,
        )
        .is_err());
    }
    assert!(validate_worker_ancestor_acl(false, &[], true).is_err());
}

#[test]
fn constructed_acl_is_protected_and_grants_only_the_documented_principals() {
    assert_eq!(
        acl_sddl("S-1-5-21-1-2-3-1001", AclKind::Manifest),
        "O:BAD:P(A;;FA;;;SY)(A;;FA;;;BA)(A;;0x120089;;;S-1-5-21-1-2-3-1001)"
    );
    assert_eq!(
        acl_sddl("S-1-5-21-1-2-3-1001", AclKind::Directory),
        "O:BAD:P(A;OICI;FA;;;SY)(A;OICI;FA;;;BA)(A;OICI;0x1200a9;;;S-1-5-21-1-2-3-1001)"
    );
    assert_eq!(
        acl_sddl("S-1-5-21-1-2-3-1001", AclKind::Staging),
        "O:BAD:P(A;;FA;;;SY)(A;;FA;;;BA)"
    );
    assert_eq!(
        acl_sddl("worker-is-deliberately-unused", AclKind::Lock),
        "O:BAD:P(A;;FA;;;SY)(A;;FA;;;BA)"
    );
    assert_eq!(
        acl_sddl("S-1-5-21-1-2-3-1001", AclKind::UserFile),
        "O:S-1-5-21-1-2-3-1001D:P(A;;FA;;;SY)(A;;FA;;;BA)(A;;FA;;;S-1-5-21-1-2-3-1001)"
    );
    assert_eq!(
        acl_sddl("S-1-5-21-1-2-3-1001", AclKind::UserDirectory),
        "O:S-1-5-21-1-2-3-1001D:P(A;OICI;FA;;;SY)(A;OICI;FA;;;BA)(A;OICI;FA;;;S-1-5-21-1-2-3-1001)"
    );
}

#[test]
fn authorization_executable_acl_allows_read_execute_but_rejects_user_mutation() {
    let user_read_execute = AceInspection {
        principal: Principal::Worker,
        mask: FILE_READ | FILE_EXECUTE,
        flags: 0,
        allowed: true,
    };
    assert!(validate_authorization_executable_acl(true, &[user_read_execute]).is_ok());
    assert!(validate_authorization_executable_acl(false, &[user_read_execute]).is_err());
    for principal in [Principal::Worker, Principal::Unexpected] {
        let user_write = AceInspection {
            principal,
            mask: GENERIC_WRITE,
            flags: 0,
            allowed: true,
        };
        assert!(validate_authorization_executable_acl(true, &[user_write]).is_err());
    }
    let system_write = AceInspection {
        principal: Principal::System,
        mask: FILE_ALL_ACCESS,
        flags: 0,
        allowed: true,
    };
    assert!(validate_authorization_executable_acl(true, &[system_write]).is_ok());

    let user_delete_child = AceInspection {
        principal: Principal::Worker,
        mask: 0x0000_0040,
        flags: 0,
        allowed: true,
    };
    assert!(validate_authorization_ancestor_acl(true, &[user_read_execute]).is_ok());
    assert!(validate_authorization_ancestor_acl(false, &[]).is_err());
    assert!(validate_authorization_ancestor_acl(true, &[user_delete_child]).is_err());
}

#[test]
fn worker_acl_authorization_follows_stable_sid_not_account_name() {
    let first = WorkerPrincipal::new(
        PrincipalKind::WindowsSid,
        "S-1-5-21-1-2-3-1001",
        "build-agent",
        WorkerAccountPolicy::CurrentUser,
    )
    .unwrap();
    let renamed = WorkerPrincipal::new(
        PrincipalKind::WindowsSid,
        "S-1-5-21-1-2-3-1001",
        "renamed-agent",
        WorkerAccountPolicy::CurrentUser,
    )
    .unwrap();
    let replacement = WorkerPrincipal::new(
        PrincipalKind::WindowsSid,
        "S-1-5-21-1-2-3-1002",
        "build-agent",
        WorkerAccountPolicy::CurrentUser,
    )
    .unwrap();

    assert_eq!(
        acl_sddl(first.principal_id(), AclKind::Manifest),
        acl_sddl(renamed.principal_id(), AclKind::Manifest)
    );
    assert_ne!(
        acl_sddl(first.principal_id(), AclKind::Manifest),
        acl_sddl(replacement.principal_id(), AclKind::Manifest)
    );
    assert_eq!(
        acl_sddl(first.principal_id(), AclKind::Lock),
        acl_sddl(replacement.principal_id(), AclKind::Lock)
    );
}

#[test]
fn worker_sid_must_resolve_to_an_individual_user_account() {
    assert!(validate_worker_sid_name_use(SID_TYPE_USER).is_ok());
    for non_user in [2, 3, 4, 5, 6, 7, 8, 9] {
        assert!(
            validate_worker_sid_name_use(non_user).is_err(),
            "SID_NAME_USE {non_user} must not authorize a worker"
        );
    }
}

#[test]
fn private_staging_acl_rejects_worker_inheritance_and_unexpected_principals() {
    let base = AclInspection {
        owner_matches_policy: true,
        dacl_is_protected: true,
        entries: vec![
            AceInspection {
                principal: Principal::System,
                mask: FILE_ALL_ACCESS,
                flags: 0,
                allowed: true,
            },
            AceInspection {
                principal: Principal::Administrators,
                mask: FILE_ALL_ACCESS,
                flags: 0,
                allowed: true,
            },
        ],
    };
    assert!(validate_acl_contract(&base, AclKind::Staging).is_ok());
    for principal in [Principal::Worker, Principal::Unexpected] {
        let mut entries = base.entries.clone();
        entries.push(AceInspection {
            principal,
            mask: FILE_ALL_ACCESS,
            flags: OBJECT_INHERIT_ACE | CONTAINER_INHERIT_ACE,
            allowed: true,
        });
        assert!(validate_acl_contract(
            &AclInspection {
                owner_matches_policy: true,
                dacl_is_protected: true,
                entries,
            },
            AclKind::Staging,
        )
        .is_err());
    }
}

fn manifest_entries() -> Vec<AceInspection> {
    vec![
        AceInspection {
            principal: Principal::System,
            mask: FILE_ALL_ACCESS,
            flags: 0,
            allowed: true,
        },
        AceInspection {
            principal: Principal::Administrators,
            mask: FILE_ALL_ACCESS,
            flags: 0,
            allowed: true,
        },
        AceInspection {
            principal: Principal::Worker,
            mask: FILE_READ,
            flags: 0,
            allowed: true,
        },
    ]
}

#[test]
fn inspection_rejects_inherited_or_explicit_worker_mutation_rights() {
    let inherited_write = AclInspection {
        owner_matches_policy: true,
        dacl_is_protected: false,
        entries: manifest_entries(),
    };
    assert!(validate_acl_contract(&inherited_write, AclKind::Manifest).is_err());

    let mut explicit_entries = manifest_entries();
    explicit_entries[2].mask |= 0x2;
    let explicit_write = AclInspection {
        owner_matches_policy: true,
        dacl_is_protected: true,
        entries: explicit_entries,
    };
    assert!(validate_acl_contract(&explicit_write, AclKind::Manifest).is_err());
}

#[test]
fn inspection_rejects_users_authenticated_users_and_unexpected_principals() {
    for mask in [FILE_READ, FILE_READ | 0x2, FILE_ALL_ACCESS] {
        let mut entries = manifest_entries();
        entries.push(AceInspection {
            principal: Principal::Unexpected,
            mask,
            flags: 0,
            allowed: true,
        });
        assert!(validate_acl_contract(
            &AclInspection {
                owner_matches_policy: true,
                dacl_is_protected: true,
                entries,
            },
            AclKind::Manifest,
        )
        .is_err());
    }
}

#[test]
fn ancestor_rejects_worker_or_group_delete_child_and_acl_takeover() {
    for mask in [0x40, 0x0001_0000, 0x0004_0000, 0x0008_0000, 0x1000_0000] {
        for principal in [Principal::Worker, Principal::Unexpected] {
            assert!(validate_ancestor_entries(
                false,
                &[AceInspection {
                    principal,
                    mask,
                    flags: 0,
                    allowed: true,
                }]
            )
            .is_err());
        }
    }
    assert!(validate_ancestor_entries(true, &[]).is_err());
    assert!(validate_ancestor_entries(
        false,
        &[AceInspection {
            principal: Principal::Unexpected,
            mask: 0x40,
            flags: INHERIT_ONLY_ACE,
            allowed: true,
        }]
    )
    .is_ok());
}

#[test]
fn user_ancestor_owner_chain_allows_one_transition_to_trusted_os_owners() {
    let mut reached_system_owner = false;
    assert!(validate_user_ancestor_owner_transition(
        UserAncestorOwner::User,
        &mut reached_system_owner,
    )
    .is_ok());
    assert!(validate_user_ancestor_owner_transition(
        UserAncestorOwner::TrustedSystem,
        &mut reached_system_owner,
    )
    .is_ok());
    assert!(reached_system_owner);
    assert!(validate_user_ancestor_owner_transition(
        UserAncestorOwner::TrustedSystem,
        &mut reached_system_owner,
    )
    .is_ok());
    assert!(validate_user_ancestor_owner_transition(
        UserAncestorOwner::User,
        &mut reached_system_owner,
    )
    .is_err());

    let mut fresh_chain = false;
    assert!(validate_user_ancestor_owner_transition(
        UserAncestorOwner::Unexpected,
        &mut fresh_chain,
    )
    .is_err());
}

#[test]
fn user_ancestor_acl_trusts_user_and_os_service_but_rejects_unrelated_takeover() {
    let trusted_entries = [
        AceInspection {
            principal: Principal::Worker,
            mask: PARENT_TAKEOVER_ACCESS,
            flags: 0,
            allowed: true,
        },
        AceInspection {
            principal: Principal::TrustedInstaller,
            mask: PARENT_TAKEOVER_ACCESS,
            flags: 0,
            allowed: true,
        },
    ];
    for owner in [UserAncestorOwner::User, UserAncestorOwner::TrustedSystem] {
        assert!(validate_user_ancestor_entries(owner, &trusted_entries).is_ok());
    }
    assert!(
        validate_user_ancestor_entries(UserAncestorOwner::Unexpected, &trusted_entries,).is_err()
    );
    assert!(validate_user_ancestor_entries(
        UserAncestorOwner::TrustedSystem,
        &[AceInspection {
            principal: Principal::Unexpected,
            mask: PARENT_TAKEOVER_ACCESS,
            flags: 0,
            allowed: true,
        }],
    )
    .is_err());
}

#[test]
fn inspection_accepts_exact_read_only_worker_contract() {
    assert!(validate_acl_contract(
        &AclInspection {
            owner_matches_policy: true,
            dacl_is_protected: true,
            entries: manifest_entries(),
        },
        AclKind::Manifest,
    )
    .is_ok());
}

#[test]
fn a_worker_directory_is_described_for_its_owner() {
    assert_eq!(
        worker_creation_sddl("S-1-5-21-1-2-3-1001", false),
        "O:S-1-5-21-1-2-3-1001D:P(A;OICI;FA;;;SY)(A;OICI;FA;;;BA)(A;OICI;FA;;;S-1-5-21-1-2-3-1001)"
    );
    assert_eq!(
        worker_creation_sddl("S-1-5-18", true),
        "O:S-1-5-18D:P(A;OICI;FA;;;SY)(A;OICI;FA;;;BA)"
    );
}

const SYSTEM: SidRoles = SidRoles {
    system: true,
    administrators: false,
    trusted_installer: false,
    worker: false,
};
const ADMINISTRATORS: SidRoles = SidRoles {
    system: false,
    administrators: true,
    trusted_installer: false,
    worker: false,
};
const WORKER: SidRoles = SidRoles {
    system: false,
    administrators: false,
    trusted_installer: false,
    worker: true,
};
const STRANGER: SidRoles = SidRoles {
    system: false,
    administrators: false,
    trusted_installer: false,
    worker: false,
};

fn allow(sid: SidRoles, mask: u32, flags: u8) -> RawAce {
    RawAce {
        kind: 0,
        flags,
        mask,
        sid,
    }
}

fn worker_directory(entries: Vec<RawAce>) -> SecurityFacts {
    SecurityFacts {
        query: Ok(()),
        has_owner: true,
        has_dacl: true,
        identity_failure: None,
        control: Ok(0x1000),
        owner: WORKER,
        entries: Ok(entries),
    }
}

#[test]
fn descriptors_are_read_entry_by_entry() {
    let inherited = OBJECT_INHERIT_ACE | CONTAINER_INHERIT_ACE;
    let exact = vec![
        allow(SYSTEM, FILE_ALL_ACCESS, inherited),
        allow(ADMINISTRATORS, FILE_ALL_ACCESS, inherited),
        allow(WORKER, FILE_ALL_ACCESS, inherited),
    ];
    assert!(verify_worker_directory_security(&worker_directory(exact.clone()), false).is_ok());

    let mut foreign = exact.clone();
    foreign.push(allow(STRANGER, FILE_ALL_ACCESS, inherited));
    assert!(verify_worker_directory_security(&worker_directory(foreign), false).is_err());

    let mut unprotected = worker_directory(exact.clone());
    unprotected.control = Ok(0);
    assert!(verify_worker_directory_security(&unprotected, false).is_err());

    let mut failed = worker_directory(exact.clone());
    failed.query = Err(PlatformError::Native { kind: ErrorKind::Other, code: Some(5) });
    assert_eq!(
        verify_worker_directory_security(&failed, false),
        Err(PlatformError::Native { kind: ErrorKind::Other, code: Some(5) })
    );

    let mut open_above = worker_directory(vec![allow(STRANGER, GENERIC_WRITE, 0)]);
    open_above.owner = SYSTEM;
    assert!(verify_trusted_worker_ancestor(&open_above, true).is_err());
    let mut create_only = worker_directory(vec![allow(STRANGER, 0x4 | SYNCHRONIZE, 0)]);
    create_only.owner = SYSTEM;
    assert!(verify_trusted_worker_ancestor(&create_only, true).is_ok());
    assert!(verify_trusted_worker_ancestor(&create_only, false).is_err());

    let mut user_file = worker_directory(vec![
        allow(SYSTEM, FILE_ALL_ACCESS, 0),
        allow(ADMINISTRATORS, FILE_ALL_ACCESS, 0),
        allow(WORKER, FILE_ALL_ACCESS, 0),
    ]);
    assert!(inspect_security_descriptor(&user_file, AclKind::UserFile).is_ok());
    user_file.owner = ADMINISTRATORS;
    assert!(inspect_security_descriptor(&user_file, AclKind::UserFile).is_err());
}

#[test]
fn a_path_must_be_of_the_right_kind_and_no_reparse_point() {
    let missing = PlatformError::Native {
        kind: ErrorKind::NotFound,
        code: Some(2),
    };
    let facts = |attributes: u32, file_type: (bool, bool)| PathFacts {
        attributes,
        attribute_failure: missing,
        file_type: Ok(file_type),
    };
    assert!(require_kind(&facts(0x10, (true, false)), true).is_ok());
    assert_eq!(
        require_kind(&facts(0x10, (true, false)), false)
            .unwrap_err()
            .kind(),
        ErrorKind::InvalidData
    );
    assert_eq!(
        require_kind(&facts(0x410, (true, false)), true)
            .unwrap_err()
            .kind(),
        ErrorKind::PermissionDenied
    );
    assert_eq!(
        require_kind(&facts(INVALID_FILE_ATTRIBUTES, (true, false)), true),
        Err(missing)
    );
    assert!(path_is_reparse_point(INVALID_FILE_ATTRIBUTES));
    assert!(path_is_reparse_point(0x400));
    assert!(!path_is_reparse_point(0x20));
}
