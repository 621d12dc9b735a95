use styrn::error::{ErrorKind, OsStatus, PlatformError};
use styrn::native::{
    account_name_for_sid, baseline_system_directory, copy_sid, current_known_folder,
    current_local_app_data, current_profile_directory, current_user_sid, lookup_account_sid,
    platform_name, principal_for_sid, principal_sid, profiles_directory,
    resolve_current_worker_principal, sid_to_string, token_information, token_user_sid,
    until_terminator, well_known_sid, wide_pointer_to_string, windows_names_equal, AccountFacts,
    KnownFolder, KnownFolderAnswer, SidCopy, TokenRead,
};
use styrn::principal::{PrincipalKind, WorkerAccountPolicy, WorkerPrincipal};

fn units(text: &str) -> Vec<u16> {
    text.encode_utf16().collect()
}

fn status(code: i32) -> OsStatus {
    OsStatus {
        code,
        kind: if code == 5 {
            ErrorKind::PermissionDenied
        } else {
            ErrorKind::Other
        },
    }
}

fn failure() -> PlatformError {
    PlatformError::Native {
        kind: ErrorKind::Other,
        code: Some(31),
    }
}

fn sid_copy(length: u32) -> SidCopy {
    SidCopy {
        length,
        length_failure: failure(),
        copied: Ok(vec![1, 2, 3]),
    }
}

#[test]
fn texts_end_at_their_terminator() {
    assert_eq!(until_terminator(&units("ab\0cd")), units("ab"));
    assert_eq!(until_terminator(&units("ab")), units("ab"));
    assert_eq!(
        wide_pointer_to_string(&Some(units("Grün \u{1f600}"))).unwrap(),
        "Grün \u{1f600}"
    );
    assert_eq!(
        wide_pointer_to_string(&Some(vec![0xd800])).unwrap_err().kind(),
        ErrorKind::InvalidData
    );
    assert_eq!(wide_pointer_to_string(&None).unwrap(), "");
    assert_eq!(sid_to_string(Ok(units("S-1-5-18"))).unwrap(), "S-1-5-18");
    assert_eq!(sid_to_string(Err(failure())), Err(failure()));
    assert_eq!(platform_name(), "windows");
}

#[test]
fn names_are_compared_as_the_system_compares_them() {
    let compare = |left: &[u16], right: &[u16]| {
        let fold = |units: &[u16]| String::from_utf16_lossy(units).to_lowercase();
        if fold(left) == fold(right) {
            2
        } else {
            3
        }
    };
    assert!(windows_names_equal(&units("Worker"), &units("WORKER"), &compare));
    assert!(!windows_names_equal(&units("Worker"), &units("worker2"), &compare));
}

#[test]
fn a_sid_is_copied_whole() {
    assert_eq!(copy_sid(Some(sid_copy(3))), Ok(vec![1, 2, 3]));
    assert_eq!(copy_sid(Some(sid_copy(0))), Err(failure()));
    assert_eq!(
        copy_sid(None).unwrap_err().kind(),
        ErrorKind::InvalidData
    );
    assert_eq!(
        current_user_sid(Ok(()), status(122), Ok(()), sid_copy(3)),
        Ok(vec![1, 2, 3])
    );
    assert_eq!(
        current_user_sid(Err(failure()), status(122), Ok(()), sid_copy(3)),
        Err(failure())
    );
    assert_eq!(
        current_user_sid(Ok(()), status(5), Ok(()), sid_copy(3)),
        Err(PlatformError::Native { kind: ErrorKind::PermissionDenied, code: Some(5) })
    );
    assert_eq!(lookup_account_sid(status(122), Ok(vec![9])), Ok(vec![9]));
    assert!(lookup_account_sid(status(1332), Ok(vec![9])).is_err());
    assert_eq!(well_known_sid(Ok(()), &[1, 2, 3, 4], 2), Ok(vec![1, 2]));
    assert_eq!(well_known_sid(Err(failure()), &[1], 1), Err(failure()));
}

#[test]
fn only_user_accounts_have_a_name() {
    let account = |kind| {
        Ok(AccountFacts {
            kind,
            name: units("build-agent"),
        })
    };
    assert_eq!(account_name_for_sid(status(122), &account(1)).unwrap(), "build-agent");
    assert!(account_name_for_sid(status(122), &account(2)).is_err());
    assert_eq!(account_name_for_sid(status(122), &Err(failure())), Err(failure()));
}

fn token_read(length: u32) -> TokenRead {
    TokenRead {
        size_succeeded: false,
        required: 40,
        size_status: status(122),
        filled: Ok(()),
        capacity: 40,
        length,
    }
}

#[test]
fn token_information_fits_its_buffer() {
    assert_eq!(token_information(&token_read(40)), Ok(40));
    assert!(token_information(&token_read(41)).is_err());
    let mut failed = token_read(40);
    failed.filled = Err(failure());
    assert_eq!(token_information(&failed), Err(failure()));
    assert_eq!(
        token_user_sid(&token_read(40), 16, Some(sid_copy(3))),
        Ok(vec![1, 2, 3])
    );
    assert!(token_user_sid(&token_read(8), 16, Some(sid_copy(3))).is_err());
}

#[test]
fn the_current_principal_shares_its_users_account() {
    let found = resolve_current_worker_principal(
        Ok(()),
        Ok("S-1-5-21-1-2-3-1001".to_owned()),
        Ok("alex".to_owned()),
    )
    .unwrap();
    assert_eq!(found.account_policy(), WorkerAccountPolicy::CurrentUser);
    assert_eq!(found.principal_kind(), PrincipalKind::WindowsSid);
    assert_eq!(found.name(), "alex");
    assert!(principal_for_sid(
        Ok("S-1-5-18".to_owned()),
        Ok("SYSTEM".to_owned()),
        WorkerAccountPolicy::Dedicated
    )
    .is_err());
    assert_eq!(
        principal_sid(&found, Ok(()), sid_copy(3)),
        Ok(vec![1, 2, 3])
    );
    let unix = WorkerPrincipal::new(
        PrincipalKind::UnixUid,
        "501",
        "alex",
        WorkerAccountPolicy::CurrentUser,
    )
    .unwrap();
    assert!(principal_sid(&unix, Ok(()), sid_copy(3)).is_err());
}

#[test]
fn known_folders_are_absolute_paths() {
    let answer = |status: i32, units: Option<Vec<u16>>, is_absolute: bool| KnownFolderAnswer {
        status,
        units,
        is_absolute,
    };
    let folder = units(r"C:\Users\alex");
    for folder_kind in [KnownFolder::LocalAppData, KnownFolder::Profile] {
        assert_eq!(
            current_known_folder(folder_kind, &answer(0, Some(folder.clone()), true)),
            Ok(folder.clone())
        );
    }
    assert!(current_local_app_data(&answer(-1, Some(folder.clone()), true)).is_err());
    assert!(current_profile_directory(&answer(0, None, true)).is_err());
    assert!(current_profile_directory(&answer(0, Some(folder.clone()), false)).is_err());
}

#[test]
fn system_directories_are_read_up_to_their_terminator() {
    assert_eq!(
        profiles_directory(9, status(122), Ok(()), &units("C:\\Users\0")),
        Ok(units(r"C:\Users"))
    );
    assert_eq!(
        profiles_directory(9, status(5), Ok(()), &units("C:\\Users\0")),
        Err(PlatformError::Native { kind: ErrorKind::PermissionDenied, code: Some(5) })
    );
    assert_eq!(
        baseline_system_directory(10, &units("C:\\Windows\0\0"), failure()),
        Ok(units(r"C:\Windows"))
    );
    assert_eq!(
        baseline_system_directory(0, &units("C:\\Windows\0"), failure()),
        Err(failure())
    );
}
