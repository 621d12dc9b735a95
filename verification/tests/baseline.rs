use styrn::authorized_keys::{
    authorized_keys_are_ready, authorized_keys_file_is_ready, canonical_authorized_keys_path,
    keys_are_sufficient, KeyDirectoryFacts, KeyFileFacts,
};
use styrn::baseline::{
    baseline_command_environment, baseline_probe_snapshot, git_program, git_snapshot,
    parse_tailscale_status, poll_baseline_command, read_bounded, run_baseline_readonly_command,
    run_fixed_baseline_command, sleep_snapshot, ssh_match_context, ssh_server_snapshot,
    tailscale_snapshot, tailscale_status_snapshot, BaselineCommandFailure, BaselineCommandOutput,
    BaselineProbe, BaselineProbeSnapshot, BaselineTailscaleMode, BaselineTailscalePosture,
    CommandPoll, CommandRun, CommandStep, GitFacts, SleepFacts, SshServerFacts, TailscaleFacts,
};
use styrn::descriptor::{RawAce, SecurityFacts, SidRoles};
use styrn::error::{ErrorKind, PlatformError};
use styrn::layout::WorkerPath;
use styrn::probe_text::{
    parse_git_version, parse_service_auto_start, parse_sleep_posture, parse_sshd_service_running,
    parse_tailscale_unattended_policy_value, tailscale_unattended_policy_is_always,
    HKEY_LOCAL_MACHINE,
};
use styrn::publication::FileInformation;
use styrn::ssh_key::{key_blob_is_valid, parse_authorized_key_line, take_ssh_wire_string};
use styrn::sshd_config::parse_effective_sshd_config;

const VALID_ED25519: &str =
    "ssh-ed25519 AAAAC3NzaC1lZDI1NTE5AAAAIAABAgMEBQYHCAkKCwwNDg8QERITFBUWFxgZGhscHR4f fixture";

fn units(text: &str) -> Vec<u16> {
    text.encode_utf16().collect()
}

fn path(text: &str) -> WorkerPath {
    WorkerPath {
        prefix: units(&text[..3]),
        components: text[3..].split('\\').map(units).collect(),
    }
}

#[test]
fn authorized_key_parser_decodes_and_validates_the_openssh_blob() {
    assert!(parse_authorized_key_line(VALID_ED25519).is_some());
    assert!(parse_authorized_key_line("ssh-ed25519 not-base64 fixture").is_none());
    assert!(parse_authorized_key_line(
        "ssh-ed25519 AAAAC3NzaC1lZDI1NTE5AAAAIE9Hc3R5cm5UZXN0S2V5T25seQ fixture"
    )
    .is_none());
    assert!(parse_authorized_key_line(
        "ssh-rsa AAAAC3NzaC1lZDI1NTE5AAAAIAABAgMEBQYHCAkKCwwNDg8QERITFBUWFxgZGhscHR4f fixture"
    )
    .is_none());
}

#[test]
fn effective_sshd_parser_requires_public_key_auth_and_authorized_key_paths() {
    let parsed = parse_effective_sshd_config(
        b"port 22\npublickeyauthentication yes\nauthorizedkeysfile .ssh/authorized_keys .ssh/authorized_keys2\n",
    )
    .unwrap();
    assert_eq!(
        parsed.authorized_keys_files(),
        [".ssh/authorized_keys", ".ssh/authorized_keys2"]
    );
    assert!(parsed.public_key_authentication());

    assert!(parse_effective_sshd_config(b"publickeyauthentication yes\n").is_none());
    assert!(parse_effective_sshd_config(
        b"publickeyauthentication yes\npublickeyauthentication no\nauthorizedkeysfile .ssh/authorized_keys\n"
    )
    .is_none());
    assert!(parse_effective_sshd_config(
        b"publickeyauthentication yes\nauthorizedkeysfile none\n"
    )
    .is_none());
}

#[test]
fn tailscale_status_requires_observed_service_persistence_and_requested_mode() {
    let status = br#"{"BackendState":"Running","Self":{"Online":true},"Version":"1.90.0"}"#;
    assert_eq!(
        tailscale_status_snapshot(
            status,
            BaselineTailscaleMode::Service,
            true,
            true,
            "service",
            BaselineTailscaleMode::Service,
        ),
        Some(BaselineProbeSnapshot::TailscalePresent {
            version: Some("1.90.0".to_owned()),
            healthy: true,
            posture: BaselineTailscalePosture {
                mode: BaselineTailscaleMode::Service,
                persistent: true,
                unattended: true,
            },
        })
    );
    assert!(matches!(
        tailscale_status_snapshot(
            status,
            BaselineTailscaleMode::Service,
            true,
            true,
            "tailscaled",
            BaselineTailscaleMode::Service,
        ),
        Some(BaselineProbeSnapshot::TailscalePresent { healthy: false, .. })
    ));
    assert!(matches!(
        tailscale_status_snapshot(
            status,
            BaselineTailscaleMode::Service,
            false,
            true,
            "service",
            BaselineTailscaleMode::Service,
        ),
        Some(BaselineProbeSnapshot::TailscalePresent { healthy: false, .. })
    ));
}

#[test]
fn current_user_ssh_path_rejects_the_windows_administrators_shared_key_trap() {
    let profile = path(r"C:\Users\ordinary");
    assert_eq!(
        canonical_authorized_keys_path(&profile, r".ssh\authorized_keys"),
        Some(path(r"C:\Users\ordinary\.ssh\authorized_keys"))
    );
    assert_eq!(
        canonical_authorized_keys_path(
            &profile,
            r"__PROGRAMDATA__/ssh/administrators_authorized_keys"
        ),
        None
    );
}

#[test]
fn powercfg_parser_requires_named_ac_and_dc_standby_indices() {
    let realistic = b"Power Setting GUID: 29f6c1db-86da-48c5-9fdb-f2b67b1f44da  (Sleep after)\r\n  Current AC Power Setting Index: 0x00000000\r\n  Current DC Power Setting Index: 0x00000000\r\n";
    assert_eq!(parse_sleep_posture(realistic), Some(true));
    assert_eq!(
        parse_sleep_posture(b"Current AC Power Setting Index: 0x00000000\r\n"),
        None
    );
    assert_eq!(
        parse_sleep_posture(b"unrelated 0x00000000 0x00000000\r\n"),
        None
    );
}

#[test]
fn unattended_policy_parser_requires_the_exact_documented_always_value() {
    assert_eq!(HKEY_LOCAL_MACHINE as isize, -2_147_483_646_isize);
    let always = "always\0".encode_utf16().collect::<Vec<_>>();
    assert!(parse_tailscale_unattended_policy_value(&always));
    for value in [
        Vec::new(),
        vec![0],
        "always".encode_utf16().collect(),
        "never\0".encode_utf16().collect(),
        "always\0\0".encode_utf16().collect(),
    ] {
        assert!(!parse_tailscale_unattended_policy_value(&value));
    }
}

#[test]
fn a_setting_that_is_not_zero_lets_the_machine_sleep() {
    assert_eq!(
        parse_sleep_posture(
            b"Current AC Power Setting Index: 0x00000000\nCurrent DC Power Setting Index: 0x00000384\n"
        ),
        Some(false)
    );
}

#[test]
fn the_registry_value_counts_only_as_a_text_of_its_own_length() {
    let always = units("always\0");
    assert!(tailscale_unattended_policy_is_always(0, 1, 14, &always));
    assert!(!tailscale_unattended_policy_is_always(2, 1, 14, &always));
    assert!(!tailscale_unattended_policy_is_always(0, 4, 14, &always));
    assert!(!tailscale_unattended_policy_is_always(0, 1, 13, &always));
}

#[test]
fn service_reports_are_read_by_their_state_lines() {
    assert_eq!(
        parse_sshd_service_running(b"SERVICE_NAME: sshd\r\n        STATE              : 4  RUNNING\r\n"),
        Some(true)
    );
    assert_eq!(
        parse_sshd_service_running(b"SERVICE_NAME: sshd\r\n        STATE              : 1  STOPPED\r\n"),
        Some(false)
    );
    assert_eq!(parse_sshd_service_running(b"nothing"), None);
    assert_eq!(
        parse_service_auto_start(b"        START_TYPE         : 2   AUTO_START\r\n"),
        Some(true)
    );
    assert_eq!(
        parse_service_auto_start(b"        START_TYPE         : 3   DEMAND_START\r\n"),
        Some(false)
    );
    assert_eq!(parse_service_auto_start(b""), None);
}

#[test]
fn git_versions_are_read_from_the_first_line() {
    assert_eq!(
        parse_git_version(b"git version 2.45.1.windows.1\r\n"),
        Some("2.45.1.windows.1".to_owned())
    );
    assert_eq!(parse_git_version(b"git version \n"), None);
    assert_eq!(parse_git_version(b"git version 2.4 (x)\n"), None);
    assert_eq!(parse_git_version(&[0xff]), None);
}

#[test]
fn key_blobs_hold_exactly_one_key_of_their_type() {
    let mut wire: &[u8] = &[0, 0, 0, 2, b'a', b'b', 9];
    assert_eq!(take_ssh_wire_string(&mut wire), Some(&b"ab"[..]));
    assert_eq!(wire, [9]);
    let mut short: &[u8] = &[0, 0, 0, 3, b'a'];
    assert_eq!(take_ssh_wire_string(&mut short), None);

    let mut blob = vec![0, 0, 0, 11];
    blob.extend(b"ssh-ed25519");
    blob.extend([0, 0, 0, 32]);
    blob.extend([7; 32]);
    assert!(key_blob_is_valid("ssh-ed25519", &blob));
    assert!(!key_blob_is_valid("ssh-rsa", &blob));
    blob.push(0);
    assert!(!key_blob_is_valid("ssh-ed25519", &blob));

    let key = parse_authorized_key_line(VALID_ED25519).unwrap();
    assert_eq!(key.key_type, "ssh-ed25519");
    assert!(key.encoded.ends_with("HR4f"));
}

#[test]
fn key_files_are_the_ones_below_the_profile() {
    let profile = path(r"C:\Users\ordinary");
    for configured in [
        ".ssh/authorized_keys",
        r"%h\.ssh\authorized_keys",
        "./.ssh/authorized_keys",
    ] {
        assert_eq!(
            canonical_authorized_keys_path(&profile, configured),
            Some(path(r"C:\Users\ordinary\.ssh\authorized_keys"))
        );
    }
    assert_eq!(
        canonical_authorized_keys_path(&profile, r"C:\Users\ordinary\.ssh\authorized_keys"),
        None
    );
    assert_eq!(
        canonical_authorized_keys_path(&profile, r"..\other\authorized_keys"),
        None
    );
}

fn chars(text: &str) -> Vec<char> {
    text.chars().collect()
}

#[test]
fn required_keys_must_all_be_listed() {
    let listed = format!("# comment\n{VALID_ED25519}\n");
    assert!(keys_are_sufficient(&chars(&listed), &[VALID_ED25519.to_owned()]));
    assert!(keys_are_sufficient(&chars(&listed), &[]));
    assert!(!keys_are_sufficient(&chars("# comment\n"), &[]));
    assert!(!keys_are_sufficient(
        &chars(&listed),
        &["ssh-ed25519 AAAAC3NzaC1lZDI1NTE5AAAAIAABAgMEBQYHCAkKCwwNDg8QERITFBUWFxgZGhscHR4e".to_owned()]
    ));
}

const USER: SidRoles = SidRoles {
    system: false,
    administrators: false,
    trusted_installer: false,
    worker: true,
};
const SYSTEM: SidRoles = SidRoles {
    system: true,
    administrators: false,
    trusted_installer: false,
    worker: false,
};

const ADMINISTRATORS: SidRoles = SidRoles {
    system: false,
    administrators: true,
    trusted_installer: false,
    worker: false,
};

fn user_only(flags: u8) -> SecurityFacts {
    let full = |sid| RawAce {
        kind: 0,
        flags,
        mask: 0x001f_01ff,
        sid,
    };
    SecurityFacts {
        query: Ok(()),
        has_owner: true,
        has_dacl: true,
        identity_failure: None,
        control: Ok(0x1000),
        owner: USER,
        entries: Ok(vec![full(SYSTEM), full(ADMINISTRATORS), full(USER)]),
    }
}

fn key_file(text: &str) -> KeyFileFacts {
    KeyFileFacts {
        handle: Ok(FileInformation {
            attributes: 0x20,
            volume_serial_number: 1,
            file_index_high: 0,
            file_index_low: 9,
        }),
        descriptor: user_only(0),
        size: Ok(text.len() as u64),
        bytes: Ok(text.as_bytes().to_vec()),
    }
}

fn key_directory() -> KeyDirectoryFacts {
    KeyDirectoryFacts {
        attributes: 0x10,
        is_directory: true,
        descriptor: user_only(3),
    }
}

#[test]
fn a_key_file_must_be_private_and_hold_the_keys() {
    let required = [VALID_ED25519.to_owned()];
    assert!(authorized_keys_file_is_ready(&key_file(VALID_ED25519), &required));
    let mut shared = key_file(VALID_ED25519);
    shared.descriptor.entries = Ok(vec![RawAce {
        kind: 0,
        flags: 0,
        mask: 0x4000_0000,
        sid: SidRoles {
            system: false,
            administrators: false,
            trusted_installer: false,
            worker: false,
        },
    }]);
    assert!(!authorized_keys_file_is_ready(&shared, &required));
    let mut linked = key_file(VALID_ED25519);
    linked.handle = Ok(FileInformation {
        attributes: 0x420,
        volume_serial_number: 1,
        file_index_high: 0,
        file_index_low: 9,
    });
    assert!(!authorized_keys_file_is_ready(&linked, &required));

    let profile = path(r"C:\Users\ordinary");
    let configured = [r".ssh\authorized_keys".to_owned()];
    assert!(authorized_keys_are_ready(
        &profile,
        &key_directory(),
        &configured,
        &[key_file(VALID_ED25519)],
        &required
    ));
    assert!(!authorized_keys_are_ready(
        &profile,
        &key_directory(),
        &["__PROGRAMDATA__/ssh/administrators_authorized_keys".to_owned()],
        &[key_file(VALID_ED25519)],
        &required
    ));
}

fn output(text: &str) -> Result<BaselineCommandOutput, BaselineCommandFailure> {
    Ok(BaselineCommandOutput {
        success: true,
        stdout: text.as_bytes().to_vec(),
    })
}

#[test]
fn a_bounded_read_refuses_what_is_too_long() {
    assert_eq!(read_bounded(Ok(vec![1; 65536])).unwrap().len(), 65536);
    assert!(matches!(
        read_bounded(Ok(vec![1; 65537])),
        Err(BaselineCommandFailure::OutputTooLarge)
    ));
    assert!(matches!(
        read_bounded(Err(PlatformError::Native { kind: ErrorKind::Other, code: Some(5) })),
        Err(BaselineCommandFailure::Failed)
    ));
}

#[test]
fn commands_run_with_a_fixed_environment() {
    let environment = baseline_command_environment(vec![("EXTRA".to_owned(), "1".to_owned())]);
    let expected: Vec<(String, String)> = [("LANG", "C"), ("LC_ALL", "C"), ("EXTRA", "1")]
        .iter()
        .map(|(name, value)| (name.to_string(), value.to_string()))
        .collect();
    assert_eq!(environment, expected);
}

#[test]
fn a_command_is_stopped_when_its_time_is_over() {
    assert!(matches!(
        run_fixed_baseline_command(CommandPoll::Running { elapsed_millis: 1999 }),
        CommandStep::Sleep
    ));
    assert!(matches!(
        run_fixed_baseline_command(CommandPoll::Running { elapsed_millis: 2000 }),
        CommandStep::Stop
    ));
    assert!(matches!(
        poll_baseline_command(CommandPoll::Exited { success: true }, 10),
        CommandStep::Collect { success: true }
    ));
    let run = |poll, stdout| CommandRun {
        spawned: Ok(()),
        has_output: true,
        poll,
        stopped: Ok(()),
        stdout,
        stderr: Some(Ok(Vec::new())),
    };
    let done = run_baseline_readonly_command(run(
        CommandPoll::Exited { success: false },
        Some(Ok(b"out".to_vec())),
    ))
    .ok()
    .unwrap();
    assert!(!done.success);
    assert_eq!(done.stdout, b"out");
    assert!(matches!(
        run_baseline_readonly_command(run(
            CommandPoll::Running { elapsed_millis: 2000 },
            Some(Ok(Vec::new()))
        )),
        Err(BaselineCommandFailure::TimedOut)
    ));
    let mut missing = run(CommandPoll::Failed, None);
    missing.spawned = Err(PlatformError::Native {
        kind: ErrorKind::NotFound,
        code: Some(2),
    });
    assert!(matches!(
        run_baseline_readonly_command(missing),
        Err(BaselineCommandFailure::NotFound)
    ));
}

#[test]
fn a_status_is_read_out_of_the_document() {
    assert!(matches!(
        parse_tailscale_status(
            br#"{"BackendState":"Stopped","Self":{"Online":true},"Version":"1.90.0"}"#,
            true,
            true,
            "service"
        ),
        Some(BaselineProbeSnapshot::TailscalePresent { healthy: false, .. })
    ));
    assert_eq!(parse_tailscale_status(b"{", true, true, "service"), None);
}

fn tailscale(state: &str) -> TailscaleFacts {
    TailscaleFacts {
        program_is_file: true,
        system_known: true,
        service: output("STATE : 4  RUNNING\r\n"),
        start: output("START_TYPE : 2  AUTO_START\r\n"),
        unattended: true,
        status: output(&format!(
            "{{\"BackendState\":\"{state}\",\"Self\":{{\"Online\":true}},\"Version\":\"1.90.0\"}}"
        )),
    }
}

#[test]
fn probes_tell_absent_broken_and_healthy_apart() {
    assert!(matches!(
        tailscale_snapshot(&tailscale("Running"), "service"),
        BaselineProbeSnapshot::TailscalePresent { healthy: true, .. }
    ));
    let mut absent = tailscale("Running");
    absent.program_is_file = false;
    assert_eq!(tailscale_snapshot(&absent, "service"), BaselineProbeSnapshot::Absent);

    assert_eq!(
        git_snapshot(&GitFacts {
            program_found: true,
            version: output("git version 2.45.1\n"),
        }),
        BaselineProbeSnapshot::Present {
            version: Some("2.45.1".to_owned()),
            healthy: true,
        }
    );
    assert_eq!(
        git_snapshot(&GitFacts {
            program_found: false,
            version: Err(BaselineCommandFailure::NotFound),
        }),
        BaselineProbeSnapshot::Absent
    );
    assert!(git_program(true, false).is_some());
    assert_ne!(git_program(true, true), git_program(false, true));
    assert_eq!(git_program(false, false), None);

    assert_eq!(
        sleep_snapshot(&SleepFacts {
            system_known: true,
            settings: output(
                "Current AC Power Setting Index: 0x00000000\nCurrent DC Power Setting Index: 0x00000000\n"
            ),
        }),
        BaselineProbeSnapshot::Present {
            version: None,
            healthy: true,
        }
    );
    assert_eq!(
        baseline_probe_snapshot(&BaselineProbe::Styrnd, &[], "service"),
        BaselineProbeSnapshot::Absent
    );
}

#[test]
fn an_ssh_server_is_healthy_with_the_users_own_keys() {
    let facts = |configuration: &str| SshServerFacts {
        system_known: true,
        program_is_file: true,
        service: output("STATE : 4  RUNNING\r\n"),
        user_known: true,
        configuration: output(configuration),
        profile: Some(path(r"C:\Users\ordinary")),
        key_directory: key_directory(),
        key_files: vec![key_file(VALID_ED25519)],
    };
    let required = [VALID_ED25519.to_owned()];
    assert_eq!(
        ssh_server_snapshot(
            &facts("publickeyauthentication yes\nauthorizedkeysfile .ssh/authorized_keys\n"),
            &required
        ),
        BaselineProbeSnapshot::Present {
            version: None,
            healthy: true,
        }
    );
    assert_eq!(
        ssh_server_snapshot(
            &facts("publickeyauthentication no\nauthorizedkeysfile .ssh/authorized_keys\n"),
            &required
        ),
        BaselineProbeSnapshot::Present {
            version: None,
            healthy: false,
        }
    );
    assert!(ssh_match_context("ordinary").contains("user=ordinary"));
}
