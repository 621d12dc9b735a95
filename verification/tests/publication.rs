use styrn::acl::{acl_sddl, AclKind};
use styrn::descriptor::{PathFacts, RawAce, SecurityFacts, SidRoles};
use styrn::error::{ErrorKind, PlatformError};
use styrn::layout::WorkerPath;
use styrn::publication::{
    authorization_target_identity, check_manifest_parent,
    create_private_manifest_staging_directory,
    create_private_publication_file, file_identity,
    harden_manifest_directory, harden_manifest_file, hardened_directory_descriptor,
    hardened_file_descriptor, open_manifest_lock, open_verified_manifest_file_for_read,
    open_verified_private_file_for_read, prepare_verified_private_file_removal,
    private_file_descriptor, private_file_identity, publish_manifest_directory,
    staging_directory_descriptor, verify_private_file_handle_security, Completion,
    FileInformation, HandleFacts, LockOpening, Naming, PrivateFileIdentity, PrivatePublicationFile,
};
use styrn::store::{
    is_test_owner, verify_manifest_directory_security, verify_manifest_file_target,
    verify_manifest_security, verify_user_manifest_ancestors, ManifestOwner, ObjectFacts,
};

fn units(text: &str) -> Vec<u16> {
    text.encode_utf16().collect()
}

fn path(text: &str) -> WorkerPath {
    WorkerPath {
        prefix: units(&text[..3]),
        components: text[3..].split('\\').map(units).collect(),
    }
}

const NOBODY: SidRoles = SidRoles {
    system: false,
    administrators: false,
    trusted_installer: false,
    worker: false,
};
const SYSTEM: SidRoles = SidRoles {
    system: true,
    administrators: false,
    trusted_installer: false,
    worker: false,
};
const ADMINISTRATORS: SidRoles = SidRoles {
    system: false,
    administrators: true,
    trusted_installer: false,
    worker: false,
};
const USER: SidRoles = SidRoles {
    system: false,
    administrators: false,
    trusted_installer: false,
    worker: true,
};

fn missing() -> PlatformError {
    PlatformError::Native {
        kind: ErrorKind::NotFound,
        code: Some(2),
    }
}

fn user_rules(flags: u8) -> SecurityFacts {
    let full = |sid| RawAce {
        kind: 0,
        flags,
        mask: 0x001f_01ff,
        sid,
    };
    SecurityFacts {
        query: Ok(()),
        has_owner: true,
        has_dacl: true,
        identity_failure: None,
        control: Ok(0x1000),
        owner: USER,
        entries: Ok(vec![full(SYSTEM), full(ADMINISTRATORS), full(USER)]),
    }
}

fn directory_path() -> PathFacts {
    PathFacts {
        attributes: 0x10,
        attribute_failure: missing(),
        file_type: Ok((true, false)),
    }
}

fn file_path() -> PathFacts {
    PathFacts {
        attributes: 0x20,
        attribute_failure: missing(),
        file_type: Ok((false, true)),
    }
}

fn directory() -> ObjectFacts {
    ObjectFacts {
        path: directory_path(),
        descriptor: user_rules(3),
    }
}

fn file() -> ObjectFacts {
    ObjectFacts {
        path: file_path(),
        descriptor: user_rules(0),
    }
}

fn system_directory() -> ObjectFacts {
    let mut facts = directory();
    facts.descriptor.owner = SYSTEM;
    facts
}

fn information(low: u32) -> FileInformation {
    FileInformation {
        attributes: 0x20,
        volume_serial_number: 3,
        file_index_high: 1,
        file_index_low: low,
    }
}

fn handle(low: u32) -> HandleFacts {
    HandleFacts {
        handle: Ok(information(low)),
        descriptor: user_rules(0),
    }
}

const NUMBER_NINE: PrivateFileIdentity = PrivateFileIdentity {
    first: 3,
    second: 0x1_0000_0009,
};

#[test]
fn a_file_is_known_by_its_volume_and_index() {
    assert_eq!(file_identity(&information(9)), NUMBER_NINE);
    assert_eq!(private_file_identity(&Ok(information(9))), Ok(NUMBER_NINE));
    assert_eq!(private_file_identity(&Err(missing())), Err(missing()));
    let mut link = information(9);
    link.attributes = 0x420;
    assert!(private_file_identity(&Ok(link)).is_err());
}

#[test]
fn a_binding_is_the_digest_of_the_identity() {
    let one = PrivateFileIdentity::new(1, 2).binding_sha256();
    assert_eq!(one.len(), 64);
    assert_ne!(one, PrivateFileIdentity::new(2, 1).binding_sha256());
    assert_eq!(one, PrivateFileIdentity::new(1, 2).binding_sha256());
}

#[test]
fn a_private_file_is_read_or_removed_only_as_itself() {
    for owner in [ManifestOwner::User] {
        assert!(verify_private_file_handle_security(owner, &handle(9)).is_ok());
        assert!(open_verified_private_file_for_read(owner, &handle(9), NUMBER_NINE).is_ok());
        assert!(prepare_verified_private_file_removal(owner, &handle(9), NUMBER_NINE).is_ok());
        assert!(open_verified_private_file_for_read(owner, &handle(8), NUMBER_NINE).is_err());
        assert!(prepare_verified_private_file_removal(owner, &handle(8), NUMBER_NINE).is_err());
        let mut shared = handle(9);
        shared.descriptor.owner = NOBODY;
        assert!(open_verified_private_file_for_read(owner, &shared, NUMBER_NINE).is_err());
    }
}

#[test]
fn descriptors_follow_the_owner() {
    let sid = "S-1-5-21-1-2-3-1001";
    assert_eq!(
        private_file_descriptor(ManifestOwner::User, sid),
        Some(acl_sddl(sid, AclKind::UserFile))
    );
    assert_eq!(
        staging_directory_descriptor(ManifestOwner::System, sid),
        Some(acl_sddl(sid, AclKind::Staging))
    );
    assert_eq!(
        hardened_directory_descriptor(ManifestOwner::System, sid),
        Some(acl_sddl(sid, AclKind::Directory))
    );
    assert_eq!(
        hardened_file_descriptor(ManifestOwner::System, sid),
        Some(acl_sddl(sid, AclKind::Manifest))
    );
    assert!(is_test_owner(ManifestOwner::CurrentProcess));
    assert!(!is_test_owner(ManifestOwner::User));
}

#[test]
fn hardening_is_checked_afterwards() {
    assert!(harden_manifest_directory(
        ManifestOwner::User,
        &directory_path(),
        Ok(()),
        &user_rules(3)
    )
    .is_ok());
    assert!(harden_manifest_directory(
        ManifestOwner::User,
        &file_path(),
        Ok(()),
        &user_rules(3)
    )
    .is_err());
    assert!(harden_manifest_file(ManifestOwner::User, &file_path(), Ok(()), &user_rules(0)).is_ok());
    assert_eq!(
        harden_manifest_file(
            ManifestOwner::User,
            &file_path(),
            Err(missing()),
            &user_rules(0)
        ),
        Err(missing())
    );
    assert!(
        harden_manifest_file(ManifestOwner::User, &file_path(), Ok(()), &user_rules(3)).is_err()
    );
}

#[test]
fn a_manifest_is_trusted_with_its_whole_ancestry() {
    let chain = || vec![directory(), directory(), system_directory()];
    let target = path(r"C:\Users\ordinary\machine.toml");
    let trusted = path(r"C:\Users");
    let outcome = verify_manifest_security(
        &target,
        ManifestOwner::User,
        &trusted,
        &file(),
        &chain(),
    );
    assert_eq!(outcome, Ok(()));

    let mut foreign = chain();
    foreign[1].descriptor.owner = NOBODY;
    assert!(
        verify_manifest_security(&target, ManifestOwner::User, &trusted, &file(), &foreign).is_err()
    );
    assert!(verify_manifest_directory_security(ManifestOwner::User, &directory()).is_ok());
    assert!(verify_manifest_file_target(&file_path()).is_ok());
    assert!(verify_manifest_file_target(&directory_path()).is_err());

    assert!(verify_user_manifest_ancestors(&[directory(), system_directory()], Some(0)).is_ok());
    assert!(
        verify_user_manifest_ancestors(&[directory(), system_directory(), directory()], Some(0))
            .is_err()
    );
    assert!(verify_user_manifest_ancestors(&[directory(), system_directory()], None).is_err());
}

#[test]
fn a_manifest_is_read_only_while_its_ancestry_holds() {
    let chain = || vec![directory(), directory(), system_directory()];
    let target = path(r"C:\Users\ordinary\machine.toml");
    let trusted = path(r"C:\Users");
    assert!(open_verified_manifest_file_for_read(
        &target,
        ManifestOwner::User,
        &trusted,
        &chain(),
        &handle(9),
        &chain()
    )
    .is_ok());
    let mut after = chain();
    after[0].descriptor.owner = NOBODY;
    assert!(check_manifest_parent(&target, ManifestOwner::User, &trusted, &chain()).is_ok());
    assert!(check_manifest_parent(&target, ManifestOwner::User, &trusted, &after).is_err());
    assert!(open_verified_manifest_file_for_read(
        &target,
        ManifestOwner::User,
        &trusted,
        &chain(),
        &handle(9),
        &after
    )
    .is_err());
}

#[test]
fn a_lock_file_is_made_or_opened_as_it_must_be() {
    let opening = |created: Result<(), PlatformError>| LockOpening {
        created,
        existing: file(),
        reopened: Ok(()),
        last: file(),
    };
    assert!(open_manifest_lock(ManifestOwner::User, &opening(Ok(()))).is_ok());
    let taken = PlatformError::Native {
        kind: ErrorKind::AlreadyExists,
        code: Some(183),
    };
    assert!(open_manifest_lock(ManifestOwner::User, &opening(Err(taken))).is_ok());
    assert_eq!(
        open_manifest_lock(ManifestOwner::User, &opening(Err(missing()))),
        Err(missing())
    );
    let mut unsafe_lock = opening(Err(taken));
    unsafe_lock.existing.descriptor.owner = NOBODY;
    assert!(open_manifest_lock(ManifestOwner::User, &unsafe_lock).is_err());
}

#[test]
fn a_staging_directory_is_published_once() {
    let staging = create_private_manifest_staging_directory(&path(r"C:\a\staging"), Ok(()))
        .ok()
        .unwrap();
    assert!(staging.path().same_as(&path(r"C:\a\staging")));
    assert!(create_private_manifest_staging_directory(&path(r"C:\a\staging"), Err(missing())).is_err());
    assert!(publish_manifest_directory(&directory_path(), Ok(()), false).is_ok());
    assert_eq!(
        publish_manifest_directory(&directory_path(), Err(missing()), true)
            .unwrap_err()
            .kind(),
        ErrorKind::AlreadyExists
    );
    assert_eq!(
        publish_manifest_directory(&directory_path(), Err(missing()), false),
        Err(missing())
    );
}

fn begun() -> PrivatePublicationFile {
    create_private_publication_file(
        &path(r"C:\a\temporary"),
        ManifestOwner::User,
        Ok(()),
        &handle(9),
    )
    .ok()
    .unwrap()
}

fn completion(bytes: &[u8], low: u32) -> Completion {
    Completion {
        flushed: Ok(()),
        synced: Ok(()),
        open: handle(9),
        named: handle(low),
        rewound: Ok(()),
        read: Ok(bytes.to_vec()),
    }
}

fn naming(moved: Result<(), PlatformError>, destination_exists: bool, low: u32) -> Naming {
    Naming {
        open: Ok(information(9)),
        temporary: handle(9),
        moved,
        destination_exists,
        destination: handle(low),
    }
}

#[test]
fn what_is_published_is_the_file_that_was_completed() {
    assert_eq!(begun().identity(), NUMBER_NINE);
    let complete = begun()
        .complete_exact(&completion(b"{}", 9), b"{}")
        .ok()
        .unwrap();
    let published = complete
        .publish_no_replace(&path(r"C:\a\final"), &naming(Ok(()), false, 9))
        .ok()
        .unwrap();
    assert_eq!(published.identity(), NUMBER_NINE);
    assert!(published.path().same_as(&path(r"C:\a\final")));
}

#[test]
fn a_file_with_other_bytes_or_under_another_name_is_not_complete() {
    assert!(begun().complete_exact(&completion(b"{} ", 9), b"{}").is_err());
    assert!(begun().complete_exact(&completion(b"{}", 8), b"{}").is_err());
    let mut unsynced = completion(b"{}", 9);
    unsynced.synced = Err(missing());
    assert_eq!(begun().complete_exact(&unsynced, b"{}").err(), Some(missing()));
}

#[test]
fn a_taken_name_is_never_replaced() {
    let complete = || {
        begun()
            .complete_exact(&completion(b"{}", 9), b"{}")
            .ok()
            .unwrap()
    };
    assert_eq!(
        complete()
            .publish_no_replace(&path(r"C:\a\final"), &naming(Err(missing()), true, 9))
            .err()
            .unwrap()
            .kind(),
        ErrorKind::AlreadyExists
    );
    assert!(complete()
        .publish_no_replace(&path(r"C:\a\final"), &naming(Ok(()), false, 8))
        .is_err());
}

#[test]
fn nothing_is_renamed_that_may_not_be_published() {
    let complete = begun()
        .complete_exact(&completion(b"{}", 9), b"{}")
        .ok()
        .unwrap();
    let destination = path(r"C:\a\final");
    assert!(complete
        .may_publish(&destination, &Ok(information(9)), &handle(9))
        .is_ok());
    assert_eq!(
        complete
            .may_publish(&path(r"C:\b\final"), &Ok(information(9)), &handle(9))
            .unwrap_err()
            .kind(),
        ErrorKind::InvalidInput
    );
    assert_eq!(
        complete
            .may_publish(&destination, &Ok(information(8)), &handle(9))
            .unwrap_err()
            .kind(),
        ErrorKind::PermissionDenied
    );
    assert!(complete
        .may_publish(&destination, &Ok(information(9)), &handle(8))
        .is_err());
    assert_eq!(
        complete.may_publish(&destination, &Err(missing()), &handle(9)),
        Err(missing())
    );
}

#[test]
fn the_program_that_asks_for_authority_is_a_regular_file() {
    let information = |attributes| FileInformation {
        attributes,
        volume_serial_number: 3,
        file_index_high: 1,
        file_index_low: 2,
    };
    assert_eq!(
        authorization_target_identity(&Ok(information(0x20))).unwrap(),
        PrivateFileIdentity::new(3, 0x1_0000_0002)
    );
    for attributes in [0x10, 0x400] {
        assert_eq!(
            authorization_target_identity(&Ok(information(attributes))).unwrap_err(),
            PlatformError::Policy {
                kind: ErrorKind::PermissionDenied,
                message: "setup authorization target is not a regular local file",
            }
        );
    }
}
