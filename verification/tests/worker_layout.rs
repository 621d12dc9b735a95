use styrn::error::{ErrorKind, PlatformError};
use styrn::layout::{
    worker_directory_layout_for_test, InstallationScope, WorkerDirectoryLayout,
    WorkerDirectoryNode, WorkerPath, WorkerRootCreationPolicy,
};
use styrn::principal::{PrincipalKind, WorkerAccountPolicy, WorkerPrincipal};
use styrn::windows_path::{
    windows_reserved_dos_name, windows_worker_root_text_is_normalized, WindowsWorkerPath,
};
use styrn::worker_root::{
    revalidate_worker_root_principal, resolve_worker_directory_layout, FolderFacts, WorkerRootFacts,
};

fn units(text: &str) -> Vec<u16> {
    text.encode_utf16().collect()
}

fn path(text: &str) -> WorkerPath {
    WorkerPath {
        prefix: units(&text[..3]),
        components: text[3..].split('\\').map(units).collect(),
    }
}

fn below(root: &WorkerPath, name: &str) -> WorkerPath {
    root.join(&units(name))
}

fn same_path(left: &WorkerPath, right: &WorkerPath) -> bool {
    left.prefix == right.prefix && left.components == right.components && left.same_as(right)
}

fn current_principal() -> WorkerPrincipal {
    WorkerPrincipal::new(
        PrincipalKind::WindowsSid,
        "S-1-5-21-1-2-3-1001",
        "ordinary",
        WorkerAccountPolicy::CurrentUser,
    )
    .unwrap()
}

fn folder(text: &str) -> FolderFacts {
    FolderFacts {
        units: units(text),
        full: Some(units(text)),
    }
}

fn root_facts(principal: &WorkerPrincipal) -> WorkerRootFacts {
    WorkerRootFacts {
        resolved: Ok(principal.clone()),
        current: Ok(principal.clone()),
        local_app_data: Ok(folder(r"C:\Users\ordinary\AppData\Local")),
        profile: Ok(folder(r"C:\Users\ordinary")),
        root_full: Some(units(r"C:\Users\ordinary\AppData\Local\Styrn")),
    }
}

fn compare_ignoring_case(left: &[u16], right: &[u16]) -> i32 {
    let fold = |units: &[u16]| String::from_utf16_lossy(units).to_lowercase();
    if fold(left) == fold(right) {
        2
    } else {
        1
    }
}

#[test]
fn system_worker_directory_layout_has_the_exact_cross_scope_contract() {
    let principal = current_principal();
    let layout = resolve_worker_directory_layout(
        InstallationScope::System,
        &principal,
        &None,
        &root_facts(&principal),
        &compare_ignoring_case,
    )
    .ok()
    .unwrap();

    let expected_root = path(r"C:\Styrn");

    assert!(same_path(layout.root(), &expected_root));
    assert!(same_path(layout.repos(), &below(&expected_root, "repos")));
    assert!(same_path(layout.jobs(), &below(&expected_root, "jobs")));
    assert!(same_path(layout.cache(), &below(&expected_root, "cache")));
    assert!(same_path(
        layout.artifacts(),
        &below(&expected_root, "artifacts")
    ));
    assert!(same_path(layout.logs(), &below(&expected_root, "logs")));
}

#[test]
fn worker_directory_materialization_nodes_cover_zero_one_and_many_support_paths() {
    let principal = current_principal();
    let cases = [
        (path(r"C:\native\existing\Styrn"), None, vec![]),
        (
            path(r"C:\native\profile\first\Styrn"),
            Some(path(r"C:\native\profile")),
            vec![path(r"C:\native\profile\first")],
        ),
        (
            path(r"C:\native\profile\first\second\third\Styrn"),
            Some(path(r"C:\native\profile")),
            vec![
                path(r"C:\native\profile\first"),
                path(r"C:\native\profile\first\second"),
                path(r"C:\native\profile\first\second\third"),
            ],
        ),
    ];

    for (root, anchor, expected_support_paths) in cases {
        let layout = worker_directory_layout_for_test(
            InstallationScope::User,
            principal.clone(),
            root.clone(),
            anchor,
        );
        let nodes = layout.materialization_nodes();
        let support_count = expected_support_paths.len();
        assert_eq!(nodes.len(), support_count + 6);
        for (ordinal, expected_path) in expected_support_paths.into_iter().enumerate() {
            let node = WorkerDirectoryNode::Support {
                ordinal: u16::try_from(ordinal).unwrap(),
            };
            assert_eq!(nodes[ordinal], node);
            assert!(same_path(
                &layout.path_for_node(node).unwrap(),
                &expected_path
            ));
        }
        assert_eq!(
            &nodes[support_count..],
            &[
                WorkerDirectoryNode::Root,
                WorkerDirectoryNode::Repos,
                WorkerDirectoryNode::Jobs,
                WorkerDirectoryNode::Cache,
                WorkerDirectoryNode::Artifacts,
                WorkerDirectoryNode::Logs,
            ]
        );
        assert!(layout
            .path_for_node(WorkerDirectoryNode::Support {
                ordinal: u16::try_from(support_count).unwrap(),
            })
            .is_none());
        assert!(same_path(
            &layout.path_for_node(WorkerDirectoryNode::Root).unwrap(),
            &root
        ));
        assert!(same_path(
            &layout.path_for_node(WorkerDirectoryNode::Jobs).unwrap(),
            &below(&root, "jobs")
        ));
    }
}

#[test]
fn worker_root_override_rejects_relative_non_normalized_and_filesystem_roots() {
    let principal = current_principal();
    for root in [
        "relative/worker",
        "/tmp/../worker",
        "/tmp/./worker",
        "/",
        r"relative\worker",
        r"C:\temp\..\worker",
        r"C:\temp\.\worker",
        r"C:\",
        r"C:\work\root.",
        r"C:\work\root ",
        r"C:\work\CON.logs",
        r"C:\work\LPT9",
        r"C:\work\bad|name",
        r"C:/work\mixed",
        r"\\server\share\worker",
        r"\\?\C:\work\worker",
    ] {
        let error = resolve_worker_directory_layout(
            InstallationScope::System,
            &principal,
            &Some(folder(root)),
            &root_facts(&principal),
            &compare_ignoring_case,
        )
        .err()
        .unwrap();
        assert_eq!(error.kind(), ErrorKind::InvalidInput, "{root:?}");
    }
}

#[test]
fn windows_worker_root_text_rejects_win32_alias_and_device_spellings() {
    for valid in [r"C:\Styrn", r"z:\Worker Data\build.cache"] {
        assert!(
            windows_worker_root_text_is_normalized(&valid.encode_utf16().collect::<Vec<_>>()),
            "{valid:?}"
        );
    }
    for invalid in [
        r"C:\Styrn.",
        r"C:\Styrn ",
        r"C:\CON",
        r"C:\con.logs",
        r"C:\CON .logs",
        r"C:\AUX.tar",
        r"C:\NUL.txt",
        r"C:\LPT9.cache",
        "C:\\COM\u{00b9}\\jobs",
        r"C:\COM1\jobs",
        r"C:\bad<name",
        r#"C:\bad"name"#,
        r"C:\bad*name",
        r"C:\bad|name",
        r"C:\bad:name",
        r"C:/mixed\separators",
        r"\\server\share\Styrn",
        r"\\?\C:\Styrn",
        r"\\.\C:\Styrn",
        r"C:\Styrn\\jobs",
    ] {
        assert!(
            !windows_worker_root_text_is_normalized(&invalid.encode_utf16().collect::<Vec<_>>()),
            "{invalid:?}"
        );
    }
}

#[test]
fn a_users_worker_root_lies_in_their_own_application_data() {
    let principal = current_principal();
    let layout = resolve_worker_directory_layout(
        InstallationScope::User,
        &principal,
        &None,
        &root_facts(&principal),
        &compare_ignoring_case,
    )
    .ok()
    .unwrap();
    assert!(same_path(
        layout.root(),
        &path(r"C:\Users\ordinary\AppData\Local\Styrn")
    ));
    let WorkerRootCreationPolicy::CreateMissingFrom { anchor } = layout.creation_policy() else {
        panic!("the profile is the anchor");
    };
    assert!(same_path(anchor, &path(r"C:\Users\ordinary")));
    assert_eq!(layout.installation_scope(), InstallationScope::User);
    assert!(layout.worker_principal().same_as(&principal));

    let mut elsewhere = root_facts(&principal);
    elsewhere.local_app_data = Ok(folder(r"D:\Data"));
    elsewhere.root_full = Some(units(r"D:\Data\Styrn"));
    let layout = resolve_worker_directory_layout(
        InstallationScope::User,
        &principal,
        &None,
        &elsewhere,
        &compare_ignoring_case,
    )
    .ok()
    .unwrap();
    assert!(matches!(
        layout.creation_policy(),
        WorkerRootCreationPolicy::ExistingParent {
            allow_untrusted_parent_create: false
        }
    ));
}

#[test]
fn a_chosen_root_is_taken_as_it_is() {
    let principal = current_principal();
    let layout = resolve_worker_directory_layout(
        InstallationScope::System,
        &principal,
        &Some(folder(r"D:\Worker Data\styrn")),
        &root_facts(&principal),
        &compare_ignoring_case,
    )
    .ok()
    .unwrap();
    assert!(same_path(layout.root(), &path(r"D:\Worker Data\styrn")));
    assert!(matches!(
        layout.creation_policy(),
        WorkerRootCreationPolicy::ExistingParent { .. }
    ));
    assert!(layout.support_paths().is_empty());
}

#[test]
fn support_directories_lie_in_one_another() {
    let layout = worker_directory_layout_for_test(
        InstallationScope::User,
        current_principal(),
        path(r"C:\a\b\c\d"),
        Some(path(r"C:\a")),
    );
    let paths = layout.support_paths();
    assert_eq!(paths.len(), 2);
    assert!(paths[1].starts_with(&paths[0]));
    assert!(layout.root().starts_with(&paths[1]));
    assert!(!paths[0].starts_with(&paths[1]));
    assert!(layout.has_node(WorkerDirectoryNode::Support { ordinal: 1 }));
    assert!(!layout.has_node(WorkerDirectoryNode::Support { ordinal: 2 }));
}

#[test]
fn nodes_are_told_apart_by_their_actions() {
    assert_eq!(
        WorkerDirectoryNode::Support { ordinal: 12 }.action_id(),
        "identity.directory.support-12"
    );
    assert_eq!(WorkerDirectoryNode::Jobs.action_id(), "identity.directory.jobs");
}

#[test]
fn scopes_are_written_user_and_system() {
    assert_eq!(InstallationScope::parse("user"), Ok(InstallationScope::User));
    assert_eq!(
        InstallationScope::parse("system"),
        Ok(InstallationScope::System)
    );
    assert!(InstallationScope::parse("System").is_err());
}

#[test]
fn a_root_is_only_for_the_principal_it_was_planned_for() {
    let principal = current_principal();
    let layout: WorkerDirectoryLayout = worker_directory_layout_for_test(
        InstallationScope::User,
        principal.clone(),
        path(r"C:\a\b"),
        None,
    );
    assert!(revalidate_worker_root_principal(
        &layout,
        Ok(()),
        Ok(principal.clone()),
        Ok(principal.clone())
    )
    .unwrap()
    .same_as(&principal));
    assert_eq!(
        revalidate_worker_root_principal(
            &layout,
            Err(PlatformError::Native { kind: ErrorKind::Other, code: Some(5) }),
            Ok(principal.clone()),
            Ok(principal)
        )
        .err(),
        Some(PlatformError::Native { kind: ErrorKind::Other, code: Some(5) })
    );
}

#[test]
fn a_parsed_path_spells_the_text_it_came_from() {
    let text = units(r"z:\Worker Data\build.cache");
    let parsed = WindowsWorkerPath::parse(&text, &Some(text.clone())).ok().unwrap();
    assert_eq!(parsed.volume_root, units("z:\\\0"));
    assert_eq!(
        parsed.components,
        vec![units("Worker Data"), units("build.cache")]
    );
    assert!(WindowsWorkerPath::parse(&text, &Some(units(r"z:\other"))).is_err());
    assert!(WindowsWorkerPath::parse(&text, &None).is_err());
}

#[test]
fn device_names_are_reserved_in_every_spelling() {
    for name in ["con", "PRN", "Aux", "NUL", "COM9", "lpt1", "com\u{00b2}", "CONIN$", "CONOUT$"] {
        assert!(windows_reserved_dos_name(&units(name)), "{name}");
    }
    for name in ["com0", "com10", "console", "lpt"] {
        assert!(!windows_reserved_dos_name(&units(name)), "{name}");
    }
}

#[test]
fn drives_are_the_same_in_either_case() {
    let lower = path(r"c:\U\V\W");
    let upper = path(r"C:\U\V\W");
    assert!(lower.same_as(&upper));
    assert!(lower.starts_with(&path(r"C:\U")));
    assert!(!lower.same_as(&path(r"D:\U\V\W")));
    assert!(!lower.same_as(&path(r"C:\u\V\W")));
    let verbatim = |text: &str| WorkerPath {
        prefix: units(text),
        components: vec![units("U")],
    };
    assert!(verbatim(r"\\?\c:\").same_as(&verbatim(r"\\?\C:\")));
    assert!(!verbatim(r"\\?\c:\").same_as(&verbatim(r"c:\")));
    assert!(!verbatim(r"\\s\c:\").same_as(&verbatim(r"\\s\C:\")));

    let layout = worker_directory_layout_for_test(
        InstallationScope::User,
        current_principal(),
        lower,
        Some(path(r"C:\U")),
    );
    let supports = layout.support_paths();
    assert_eq!(supports.len(), 1);
    assert!(same_path(&supports[0], &path(r"C:\U\V")));
}
