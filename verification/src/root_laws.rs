//! Where a worker keeps its files and whom they are for, in terms of paths, principals
//! and what the system said of them.

use crate::authority_laws::{is_sid, lemma_is_sid, lemma_may_name_account, may_name_account};
use crate::error;
use crate::error::{ErrorKind, OsStatus, PlatformError};
use crate::inspection_laws::belongs;
use crate::layout;
use crate::layout::{
    InstallationScope, PathModel, PolicyModel, WorkerDirectoryLayout, WorkerDirectoryNode,
    WorkerPath, WorkerRootCreationPolicy,
};
use crate::native;
use crate::native::{
    account_name_for_sid, baseline_system_directory, copy_sid, current_known_folder,
    current_local_app_data, current_profile_directory, current_user_sid, lookup_account_sid,
    principal_for_sid, principal_sid, profiles_directory, resolve_current_worker_principal,
    sid_to_string, token_information, token_user_sid, until_terminator, well_known_sid,
    wide_pointer_to_string, windows_names_equal, AccountFacts, KnownFolder, KnownFolderAnswer, SidCopy, TokenRead,
};
use crate::number;
use crate::path_laws::{are_same, is_same_drive, lemma_spells_path, spells_path};
use crate::principal::{PrincipalKind, PrincipalModel, WorkerAccountPolicy, WorkerPrincipal};
use crate::scan;
use crate::windows_path;
use crate::worker_root;
use crate::worker_root::{
    default_worker_root, resolve_worker_directory_layout, revalidate_worker_root_principal,
    validate_revalidated_worker_principal, validate_user_scope_principal,
    validate_worker_root_override, validate_worker_root_principal, FolderFacts, WorkerRootFacts,
};
use vstd::prelude::*;

verus! {

/// A refusal by a rule.
pub open spec fn denied<T>(result: Result<T, PlatformError>) -> bool {
    result matches Err(PlatformError::Policy { kind: ErrorKind::PermissionDenied, .. })
}

// ---------------------------------------------------------------------------
// Whom a worker is for
// ---------------------------------------------------------------------------

/// A user's own worker is for the current user and no one else.
pub proof fn user_workers_are_the_current_users(
    selected: &WorkerPrincipal,
    current: &WorkerPrincipal,
    result: Result<(), PlatformError>,
)
    requires
        call_ensures(validate_user_scope_principal, (selected, current), result),
    ensures
        result is Ok <==> selected@ == current@ && selected@.policy
            == WorkerAccountPolicy::CurrentUser,
        result is Err ==> denied(result),
{
}

/// A principal is confirmed before a change exactly where its identifier still gives the
/// very same principal, and a user's own worker is still the current user's. It is the
/// expected principal that is handed back, and every failure is a refusal.
pub proof fn principals_are_confirmed_before_a_change(
    scope: InstallationScope,
    expected: &WorkerPrincipal,
    resolved: Result<WorkerPrincipal, PlatformError>,
    current: Option<&WorkerPrincipal>,
    result: Result<WorkerPrincipal, PlatformError>,
)
    requires
        call_ensures(
            validate_revalidated_worker_principal,
            (scope, expected, resolved, current),
            result,
        ),
    ensures
        result is Ok <==> (resolved matches Ok(found) && found@ == expected@) && (scope
            == InstallationScope::User ==> (current matches Some(user) && user@ == expected@)
            && expected@.policy == WorkerAccountPolicy::CurrentUser),
        result matches Ok(confirmed) ==> confirmed@ == expected@,
        result is Err ==> denied(result),
{
}

/// The principal of a layout is confirmed exactly where its identifier could be read and
/// gives the very same principal, and a user's own worker is still the current user's.
pub proof fn principals_of_layouts_are_confirmed(
    layout: &WorkerDirectoryLayout,
    sid: Result<(), PlatformError>,
    resolved: Result<WorkerPrincipal, PlatformError>,
    current: Result<WorkerPrincipal, PlatformError>,
    result: Result<WorkerPrincipal, PlatformError>,
)
    requires
        call_ensures(
            revalidate_worker_root_principal,
            (layout, sid, resolved, current),
            result,
        ),
    ensures
        result is Ok <==> sid is Ok && (resolved matches Ok(found) && found@ == layout@.principal)
            && (layout@.scope == InstallationScope::User ==> (current matches Ok(user) && user@
            == layout@.principal) && layout@.principal.policy == WorkerAccountPolicy::CurrentUser),
        result matches Ok(confirmed) ==> confirmed@ == layout@.principal,
        sid matches Err(failure) ==> result == Err::<WorkerPrincipal, _>(failure),
{
}

/// Whether a principal may have a new worker: it is of Windows, its identifier gives the
/// very same principal, and a user's own worker is the current user's.
pub open spec fn may_have_worker(
    scope: InstallationScope,
    principal: PrincipalModel,
    resolved: Result<WorkerPrincipal, PlatformError>,
    current: Result<WorkerPrincipal, PlatformError>,
) -> bool {
    &&& principal.kind == PrincipalKind::WindowsSid
    &&& resolved matches Ok(found) && found@ == principal
    &&& scope == InstallationScope::User ==> (current matches Ok(user) && user@ == principal)
        && principal.policy == WorkerAccountPolicy::CurrentUser
}

/// A principal is accepted for a new worker exactly where it may have one.
pub proof fn new_workers_are_for_known_principals(
    scope: InstallationScope,
    principal: &WorkerPrincipal,
    resolved: &Result<WorkerPrincipal, PlatformError>,
    current: &Result<WorkerPrincipal, PlatformError>,
    result: Result<(), PlatformError>,
)
    requires
        call_ensures(
            validate_worker_root_principal,
            (scope, principal, resolved, current),
            result,
        ),
    ensures
        result is Ok <==> may_have_worker(scope, principal@, *resolved, *current),
{
}

// ---------------------------------------------------------------------------
// Where a worker is
// ---------------------------------------------------------------------------

/// Whether a folder is spelled as Windows spells it.
pub open spec fn is_spelled(folder: FolderFacts) -> bool {
    spells_path(folder.units@) && (folder.full matches Some(full) && full@ == folder.units@)
}

/// Whether a path is the one that units spell: their drive, as a capital, and their names.
pub open spec fn is_path_of(path: PathModel, units: Seq<u16>) -> bool {
    &&& path.prefix == seq![
        if 0x61 <= units[0] <= 0x7a {
            (units[0] - 0x20) as u16
        } else {
            units[0]
        },
        0x3au16,
        0x5c,
    ]
    &&& path.components == scan::split_on(units.skip(3), 0x5cu16)
}

proof fn lemma_path_of(units: Seq<u16>)
    requires
        spells_path(units),
    ensures
        is_path_of(worker_root::path_of(units), units),
{
    let path = worker_root::path_of(units);
    assert(path.prefix =~= seq![
        if 0x61 <= units[0] <= 0x7a {
            (units[0] - 0x20) as u16
        } else {
            units[0]
        },
        0x3au16,
        0x5c,
    ]);
}

/// The units of the root below a folder: a backslash and `Styrn`.
pub open spec fn root_below(data: Seq<u16>) -> Seq<u16> {
    data + seq![0x5cu16, 0x53, 0x74, 0x79, 0x72, 0x6e]
}

proof fn lemma_root_below(data: Seq<u16>)
    ensures
        worker_root::root_text(data) == root_below(data),
{
    reveal_strlit("Styrn");
    assert(worker_root::root_text(data) =~= root_below(data));
}

/// Whether one folder lies below another to Windows.
pub open spec fn is_below<F: Fn(&[u16], &[u16]) -> i32>(
    compare: F,
    data: Seq<u16>,
    profile: Seq<u16>,
) -> bool {
    let inner = scan::split_on(data.skip(3), 0x5cu16);
    let outer = scan::split_on(profile.skip(3), 0x5cu16);
    &&& is_same_drive(data, profile)
    &&& outer.len() <= inner.len()
    &&& forall|i: int|
        0 <= i < outer.len() ==> are_same(compare, #[trigger] inner[i], outer[i])
}

pub(crate) proof fn lemma_is_below<F: Fn(&[u16], &[u16]) -> i32>(
    compare: F,
    data: Seq<u16>,
    profile: Seq<u16>,
)
    requires
        spells_path(data) && spells_path(profile),
    ensures
        windows_path::path_below(
            compare,
            windows_path::parsed(data),
            windows_path::parsed(profile),
        ) == is_below(compare, data, profile),
{
    let one = windows_path::parsed(data);
    let two = windows_path::parsed(profile);
    assert(one.volume[0] == data[0] && one.volume[1] == data[1]);
    assert(two.volume[0] == profile[0] && two.volume[1] == profile[1]);
    assert forall|a: Seq<u16>, b: Seq<u16>| #[trigger]
        windows_path::equal_components(compare, a, b) == are_same(compare, a, b) by {}
    if is_below(compare, data, profile) {
        assert forall|i: int| 0 <= i < two.components.len() implies windows_path::equal_components(
            compare,
            #[trigger] one.components[i],
            two.components[i],
        ) by {
            assert(are_same(compare, one.components[i], two.components[i]));
        }
    }
    if windows_path::path_below(compare, one, two) {
        assert forall|i: int| 0 <= i < two.components.len() implies are_same(
            compare,
            #[trigger] one.components[i],
            two.components[i],
        ) by {
            assert(windows_path::equal_components(compare, one.components[i], two.components[i]));
        }
    }
}

/// Whether a root that was not chosen is placed so: a system's worker in `C:\Styrn`, whose
/// parent others may write to; a user's own in `Styrn` below the user's own data, where
/// everything below the user's profile may be made, if the data is below it, and nothing
/// otherwise.
pub open spec fn is_placed<F: Fn(&[u16], &[u16]) -> i32>(
    compare: F,
    scope: InstallationScope,
    facts: WorkerRootFacts,
    root: PathModel,
    policy: PolicyModel,
) -> bool {
    if scope == InstallationScope::System {
        &&& root.prefix == seq![0x43u16, 0x3a, 0x5c]
        &&& root.components == seq![seq![0x53u16, 0x74, 0x79, 0x72, 0x6e]]
        &&& policy == (PolicyModel::ExistingParent { allow_untrusted_parent_create: true })
    } else {
        let data = facts.local_app_data->Ok_0.units@;
        let profile = facts.profile->Ok_0.units@;
        &&& is_path_of(root, root_below(data))
        &&& if is_below(compare, data, profile) {
            policy matches PolicyModel::CreateMissingFrom { anchor } && is_path_of(anchor, profile)
        } else {
            policy == (PolicyModel::ExistingParent { allow_untrusted_parent_create: false })
        }
    }
}

/// Whether a root that was not chosen has a place: always for a system's worker; for a
/// user's own where both folders are known and everything is spelled as Windows does.
pub open spec fn has_place(scope: InstallationScope, facts: WorkerRootFacts) -> bool {
    scope == InstallationScope::System || {
        &&& facts.local_app_data matches Ok(data) && is_spelled(data) && spells_path(
            root_below(data.units@),
        ) && (facts.root_full matches Some(full) && full@ == root_below(data.units@))
        &&& facts.profile matches Ok(profile) && is_spelled(profile)
    }
}

proof fn lemma_default<F: Fn(&[u16], &[u16]) -> i32>(
    compare: F,
    scope: InstallationScope,
    principal: PrincipalModel,
    facts: WorkerRootFacts,
)
    ensures
        worker_root::default_root(compare, scope, principal, facts) is Ok <==> may_have_worker(
            scope,
            principal,
            facts.resolved,
            facts.current,
        ) && has_place(scope, facts),
        worker_root::default_root(compare, scope, principal, facts) matches Ok((root, policy))
            ==> is_placed(compare, scope, facts, root, policy),
{
    reveal_strlit("C:\\");
    reveal_strlit("Styrn");
    assert(layout::ascii_units("C:\\"@) =~= seq![0x43u16, 0x3a, 0x5c]);
    assert(layout::ascii_units("Styrn"@) =~= seq![0x53u16, 0x74, 0x79, 0x72, 0x6e]);
    if let Ok(data) = facts.local_app_data {
        lemma_spells_path(data.units@);
        lemma_root_below(data.units@);
        lemma_spells_path(root_below(data.units@));
        if let Ok(profile) = facts.profile {
            lemma_spells_path(profile.units@);
            if is_spelled(data) && is_spelled(profile) {
                lemma_is_below(compare, data.units@, profile.units@);
                lemma_path_of(profile.units@);
                if spells_path(root_below(data.units@)) {
                    lemma_path_of(root_below(data.units@));
                }
            }
        }
    }
}

/// A root that was not chosen is placed exactly where the principal may have a worker and
/// the root has a place, and is placed as it should be.
pub proof fn roots_have_their_usual_place<F: Fn(&[u16], &[u16]) -> i32>(
    scope: InstallationScope,
    principal: &WorkerPrincipal,
    facts: &WorkerRootFacts,
    compare: &F,
    result: Result<(WorkerPath, WorkerRootCreationPolicy), PlatformError>,
)
    requires
        call_ensures(default_worker_root::<F>, (scope, principal, facts, compare), result),
    ensures
        result is Ok <==> may_have_worker(scope, principal@, facts.resolved, facts.current)
            && has_place(scope, *facts),
        result matches Ok(placed) ==> is_placed(*compare, scope, *facts, placed.0@, placed.1@),
{
    lemma_default(*compare, scope, principal@, *facts);
}

/// A chosen root is accepted exactly where it is spelled as Windows spells it.
pub proof fn chosen_roots_are_spelled_in_one_way(
    root: &[u16],
    full: &Option<Vec<u16>>,
    result: Result<(), PlatformError>,
)
    requires
        call_ensures(validate_worker_root_override, (root, full), result),
    ensures
        result is Ok <==> spells_path(root@) && (*full matches Some(full) && full@ == root@),
        result is Err ==> (result matches Err(PlatformError::Policy {
            kind: ErrorKind::InvalidInput,
            ..
        })),
{
    lemma_spells_path(root@);
}

/// A worker is laid out exactly where its principal may have one and its root is a chosen
/// one that is spelled as it should be, or has its usual place. A chosen root is the root
/// itself, above which nothing is made.
pub proof fn workers_are_laid_out_at_their_root<F: Fn(&[u16], &[u16]) -> i32>(
    scope: InstallationScope,
    principal: &WorkerPrincipal,
    chosen: &Option<FolderFacts>,
    facts: &WorkerRootFacts,
    compare: &F,
    result: Result<WorkerDirectoryLayout, PlatformError>,
)
    requires
        call_ensures(
            resolve_worker_directory_layout::<F>,
            (scope, principal, chosen, facts, compare),
            result,
        ),
    ensures
        result is Ok <==> may_have_worker(scope, principal@, facts.resolved, facts.current)
            && match *chosen {
            Some(root) => is_spelled(root),
            None => has_place(scope, *facts),
        },
        result matches Ok(made) ==> {
            &&& made@.scope == scope
            &&& made@.principal == principal@
            &&& match *chosen {
                Some(root) => is_path_of(made@.root, root.units@) && made@.policy == (
                PolicyModel::ExistingParent { allow_untrusted_parent_create: false }),
                None => is_placed(*compare, scope, *facts, made@.root, made@.policy),
            }
        },
{
    lemma_default(*compare, scope, principal@, *facts);
    if let Some(root) = *chosen {
        lemma_spells_path(root.units@);
        if is_spelled(root) {
            lemma_path_of(root.units@);
        }
    }
}

// ---------------------------------------------------------------------------
// Layouts
// ---------------------------------------------------------------------------

/// A scope is read exactly from its name.
pub proof fn scopes_are_read_from_their_names(
    value: &str,
    result: Result<InstallationScope, &'static str>,
)
    requires
        call_ensures(InstallationScope::parse, (value,), result),
    ensures
        result == Ok::<_, &'static str>(InstallationScope::User) <==> value@ == "user"@,
        result == Ok::<_, &'static str>(InstallationScope::System) <==> value@ == "system"@,
{
    reveal_strlit("user");
    reveal_strlit("system");
    assert("user"@.len() == 4 && "system"@.len() == 6);
}

/// The units of a name.
pub open spec fn units(name: Seq<char>) -> Seq<u16> {
    Seq::new(name.len(), |i: int| name[i] as u16)
}

/// Whether a path is that of an entry of a directory.
pub open spec fn is_entry(path: PathModel, directory: PathModel, name: Seq<u16>) -> bool {
    &&& path.prefix == directory.prefix
    &&& path.components == directory.components + seq![name]
}

/// A directory of a layout has a path exactly where it belongs to it: the root is the
/// layout's, the five are entries of the root by their names, and each directory above is
/// the beginning of the root's path, one longer than the one above it.
pub proof fn directories_of_a_layout_have_paths(
    layout: &WorkerDirectoryLayout,
    node: WorkerDirectoryNode,
    path: Option<WorkerPath>,
    found: bool,
)
    requires
        call_ensures(WorkerDirectoryLayout::path_for_node, (layout, node), path),
        call_ensures(WorkerDirectoryLayout::has_node, (layout, node), found),
    ensures
        path is Some <==> belongs(layout, node),
        found <==> belongs(layout, node),
        path matches Some(path) ==> match node {
            WorkerDirectoryNode::Support { ordinal } => {
                let anchor = layout@.policy->anchor;
                &&& path@.prefix == layout@.root.prefix
                &&& path@.components == layout@.root.components.take(
                    anchor.components.len() + ordinal + 1,
                )
            },
            WorkerDirectoryNode::Root => path@ == layout@.root,
            WorkerDirectoryNode::Repos => is_entry(path@, layout@.root, units("repos"@)),
            WorkerDirectoryNode::Jobs => is_entry(path@, layout@.root, units("jobs"@)),
            WorkerDirectoryNode::Cache => is_entry(path@, layout@.root, units("cache"@)),
            WorkerDirectoryNode::Artifacts => is_entry(path@, layout@.root, units("artifacts"@)),
            WorkerDirectoryNode::Logs => is_entry(path@, layout@.root, units("logs"@)),
        },
{
    lemma_units("repos"@);
    lemma_units("jobs"@);
    lemma_units("cache"@);
    lemma_units("artifacts"@);
    lemma_units("logs"@);
    if let Some(path) = path {
        if !(node is Support || node is Root) {
            let last = path@.components.last();
            assert(path@.components =~= layout@.root.components + seq![last]);
        }
    }
}

proof fn lemma_units(name: Seq<char>)
    ensures
        layout::ascii_units(name) == units(name),
{
    assert(layout::ascii_units(name) =~= units(name));
}

/// What may be made are the directories above the root that belong to the layout, the
/// outermost first, then the root, and then the five in it.
pub proof fn directories_are_made_from_the_outside_in(
    layout: &WorkerDirectoryLayout,
    nodes: Vec<WorkerDirectoryNode>,
)
    requires
        layout::numberable(layout@),
        call_ensures(WorkerDirectoryLayout::materialization_nodes, (layout,), nodes),
    ensures
        nodes@.len() >= 6,
        forall|i: int|
            0 <= i < nodes@.len() - 6 ==> #[trigger] nodes@[i] == (WorkerDirectoryNode::Support {
                ordinal: i as u16,
            }) && belongs(layout, nodes@[i]),
        forall|ordinal: u16|
            ordinal >= nodes@.len() - 6 ==> !(#[trigger] belongs(
                layout,
                WorkerDirectoryNode::Support { ordinal },
            )),
        ({
            let n = nodes@.len() - 6;
            &&& nodes@[n] == WorkerDirectoryNode::Root
            &&& nodes@[n + 1] == WorkerDirectoryNode::Repos
            &&& nodes@[n + 2] == WorkerDirectoryNode::Jobs
            &&& nodes@[n + 3] == WorkerDirectoryNode::Cache
            &&& nodes@[n + 4] == WorkerDirectoryNode::Artifacts
            &&& nodes@[n + 5] == WorkerDirectoryNode::Logs
        }),
{
    let n = layout::support_count(layout@) as int;
    assert(nodes@.len() == n + 6);
    assert forall|i: int| 0 <= i < n implies #[trigger] nodes@[i] == (
    WorkerDirectoryNode::Support { ordinal: i as u16 }) && belongs(layout, nodes@[i]) by {
        assert(i as u16 as int == i);
    }
}

/// The actions that make directories are named after them.
pub proof fn actions_are_named_after_their_directory(node: WorkerDirectoryNode, id: String)
    requires
        call_ensures(WorkerDirectoryNode::action_id, (node,), id),
    ensures
        id@ == "identity.directory."@ + match node {
            WorkerDirectoryNode::Support { ordinal } => "support-"@ + number::decimal(
                ordinal as nat,
            ),
            WorkerDirectoryNode::Root => "root"@,
            WorkerDirectoryNode::Repos => "repos"@,
            WorkerDirectoryNode::Jobs => "jobs"@,
            WorkerDirectoryNode::Cache => "cache"@,
            WorkerDirectoryNode::Artifacts => "artifacts"@,
            WorkerDirectoryNode::Logs => "logs"@,
        },
{
    reveal_strlit("identity.directory.");
    reveal_strlit("support-");
    reveal_strlit("root");
    reveal_strlit("repos");
    reveal_strlit("jobs");
    reveal_strlit("cache");
    reveal_strlit("artifacts");
    reveal_strlit("logs");
    reveal_strlit("identity.directory.support-");
    reveal_strlit("identity.directory.root");
    reveal_strlit("identity.directory.repos");
    reveal_strlit("identity.directory.jobs");
    reveal_strlit("identity.directory.cache");
    reveal_strlit("identity.directory.artifacts");
    reveal_strlit("identity.directory.logs");
    match node {
        WorkerDirectoryNode::Support { ordinal } => {
            assert(id@ =~= "identity.directory."@ + ("support-"@ + number::decimal(
                ordinal as nat,
            )));
        },
        WorkerDirectoryNode::Root => {
            assert(id@ =~= "identity.directory."@ + "root"@);
        },
        WorkerDirectoryNode::Repos => {
            assert(id@ =~= "identity.directory."@ + "repos"@);
        },
        WorkerDirectoryNode::Jobs => {
            assert(id@ =~= "identity.directory."@ + "jobs"@);
        },
        WorkerDirectoryNode::Cache => {
            assert(id@ =~= "identity.directory."@ + "cache"@);
        },
        WorkerDirectoryNode::Artifacts => {
            assert(id@ =~= "identity.directory."@ + "artifacts"@);
        },
        WorkerDirectoryNode::Logs => {
            assert(id@ =~= "identity.directory."@ + "logs"@);
        },
    }
}

/// Paths are shortened, lengthened and compared by their names.
pub proof fn paths_are_made_of_names(
    path: &WorkerPath,
    count: usize,
    first: WorkerPath,
    name: &[u16],
    longer: WorkerPath,
    other: &WorkerPath,
    same: bool,
    below: bool,
)
    requires
        count <= path@.components.len(),
        call_ensures(WorkerPath::first, (path, count), first),
        call_ensures(WorkerPath::join, (path, name), longer),
        call_ensures(WorkerPath::same_as, (path, other), same),
        call_ensures(WorkerPath::starts_with, (path, other), below),
    ensures
        first@.prefix == path@.prefix && first@.components.len() == count,
        forall|i: int| 0 <= i < count ==> #[trigger] first@.components[i] == path@.components[i],
        is_entry(longer@, path@, name@),
        same <==> path@.prefix == other@.prefix && path@.components == other@.components,
        below <==> path@.prefix == other@.prefix && other@.components.len()
            <= path@.components.len() && forall|i: int|
            0 <= i < other@.components.len() ==> #[trigger] path@.components[i]
                == other@.components[i],
{
    assert(longer@.components =~= path@.components + seq![name@]);
    let n = other@.components.len() as int;
    if below {
        assert forall|i: int| 0 <= i < n implies #[trigger] path@.components[i]
            == other@.components[i] by {
            assert(path@.components.take(n)[i] == path@.components[i]);
        }
    } else if path@.prefix == other@.prefix && n <= path@.components.len() && (forall|i: int|
        0 <= i < n ==> #[trigger] path@.components[i] == other@.components[i]) {
        assert(path@.components.take(n) =~= other@.components);
    }
}

/// Whether a unit of a prefix is the letter of its drive: the first of `C:\`, the fifth of
/// `\\?\C:\`.
pub open spec fn is_drive(prefix: Seq<u16>, i: int) -> bool {
    ||| i == 0 && prefix.len() > 1 && prefix[1] == 0x3a
    ||| i == 4 && prefix.len() > 5 && prefix[0] == 0x5c && prefix[1] == 0x5c && prefix[2] == 0x3f
        && prefix[3] == 0x5c && prefix[5] == 0x3a
}

/// Whether two units are the same but for being a capital.
pub open spec fn are_one_letter(a: u16, b: u16) -> bool {
    ||| a == b
    ||| 0x61 <= a <= 0x7a && b == a - 0x20
    ||| 0x61 <= b <= 0x7a && a == b - 0x20
}

/// Paths are the same exactly where their names are and their prefixes differ at most in
/// the case of their drive.
pub proof fn paths_differ_at_most_in_the_case_of_their_drive(
    path: &WorkerPath,
    other: &WorkerPath,
    same: bool,
)
    requires
        call_ensures(WorkerPath::same_as, (path, other), same),
    ensures
        same <==> {
            &&& windows_path::unit_views(path.components@) == windows_path::unit_views(
                other.components@,
            )
            &&& path.prefix@.len() == other.prefix@.len()
            &&& forall|i: int|
                0 <= i < path.prefix@.len() ==> #[trigger] path.prefix@[i] == other.prefix@[i]
                    || is_drive(path.prefix@, i) && are_one_letter(path.prefix@[i], other.prefix@[i])
        },
{
    let p = path.prefix@;
    let q = other.prefix@;
    assert forall|i: int| 0 <= i < p.len() implies layout::is_drive_letter(p, i) == is_drive(
        p,
        i,
    ) by {}
    assert forall|i: int| 0 <= i < q.len() implies layout::is_drive_letter(q, i) == is_drive(
        q,
        i,
    ) by {}
    let fp = layout::folded_prefix(p);
    let fq = layout::folded_prefix(q);
    if same {
        assert(fp.len() == fq.len());
        assert forall|i: int| 0 <= i < p.len() implies #[trigger] p[i] == q[i] || is_drive(p, i)
            && are_one_letter(p[i], q[i]) by {
            assert(fp[i] == fq[i]);
            if p.len() > 1 {
                assert(fp[1] == fq[1]);
            }
            if p.len() > 5 {
                assert(fp[0] == fq[0] && fp[2] == fq[2] && fp[3] == fq[3] && fp[5] == fq[5]);
            }
        }
    } else if windows_path::unit_views(path.components@) == windows_path::unit_views(
        other.components@,
    ) && p.len() == q.len() && (forall|i: int|
        0 <= i < p.len() ==> #[trigger] p[i] == q[i] || is_drive(p, i) && are_one_letter(
            p[i],
            q[i],
        )) {
        assert forall|i: int| 0 <= i < fp.len() implies fp[i] == fq[i] by {
            assert(p[i] == q[i] || is_drive(p, i));
            if p.len() > 1 {
                assert(p[1] == q[1] || is_drive(p, 1));
            }
            if p.len() > 5 {
                assert(p[0] == q[0] || is_drive(p, 0));
                assert(p[2] == q[2] || is_drive(p, 2));
                assert(p[3] == q[3] || is_drive(p, 3));
                assert(p[5] == q[5] || is_drive(p, 5));
            }
        }
        assert(fp =~= fq);
    }
}

// ---------------------------------------------------------------------------
// What the system said
// ---------------------------------------------------------------------------

/// A text ends at its terminator, or where it is cut off.
pub proof fn texts_end_at_their_terminator(units: &[u16], said: &[u16])
    requires
        call_ensures(until_terminator, (units,), said),
    ensures
        said@.len() <= units@.len(),
        said@ == units@.take(said@.len() as int),
        !said@.contains(0),
        said@.len() < units@.len() ==> units@[said@.len() as int] == 0,
{
    scan::lemma_until(units@, 0u16);
    if said@.contains(0) {
        let i = choose|i: int| 0 <= i < said@.len() && said@[i] == 0;
        assert(units@[i] == 0);
    }
}

/// What the system wrote is read as the text that its units encode, or not at all.
pub proof fn texts_are_read_as_written(
    written: Result<Vec<u16>, PlatformError>,
    sid: Result<String, PlatformError>,
    value: &Option<Vec<u16>>,
    attribute: Result<String, PlatformError>,
)
    requires
        call_ensures(sid_to_string, (written,), sid),
        call_ensures(wide_pointer_to_string, (value,), attribute),
    ensures
        sid matches Ok(said) ==> (written matches Ok(units) && native::utf16(said@) == units@),
        written matches Ok(units) ==> (sid is Err ==> forall|said: Seq<char>|
            #[trigger] native::utf16(said) != units@),
        written matches Err(failure) ==> sid == Err::<String, _>(failure),
        *value is None ==> (attribute matches Ok(said) && said@.len() == 0),
        attribute matches Ok(said) ==> (*value matches Some(units) ==> native::utf16(said@)
            == units@),
{
    reveal_strlit("");
    if let Ok(units) = written {
        if native::utf16_text(units@) is Some {
            let said = native::utf16_text(units@)->0;
            assert(native::utf16(said) == units@);
        }
    }
    if let Some(units) = *value {
        if native::utf16_text(units@) is Some {
            let said = native::utf16_text(units@)->0;
            assert(native::utf16(said) == units@);
        }
    }
}

/// Whether an identifier was copied so.
pub open spec fn is_copy(copy: SidCopy, sid: Result<Vec<u8>, PlatformError>) -> bool {
    match sid {
        Ok(bytes) => copy.length > 0 && (copy.copied matches Ok(copied) && copied@ == bytes@),
        Err(failure) => copy.length == 0 && failure == copy.length_failure || copy.length > 0
            && copy.copied == Err::<Vec<u8>, _>(failure),
    }
}

/// Identifiers are copied where they are there; those of the current user, of a named
/// account and of a token's user are found exactly where every step before succeeded.
pub proof fn identifiers_are_copied_step_by_step(
    source: Option<SidCopy>,
    sid: Result<Vec<u8>, PlatformError>,
    token: Result<(), PlatformError>,
    size: OsStatus,
    user: Result<(), PlatformError>,
    copy: SidCopy,
    current: Result<Vec<u8>, PlatformError>,
    found: Result<Vec<u8>, PlatformError>,
    named: Result<Vec<u8>, PlatformError>,
)
    requires
        call_ensures(copy_sid, (source,), sid),
        call_ensures(current_user_sid, (token, size, user, copy), current),
        call_ensures(lookup_account_sid, (size, found), named),
    ensures
        source is None ==> sid is Err,
        source matches Some(one) ==> is_copy(one, sid),
        token is Ok && size.code == 122 && user is Ok ==> is_copy(copy, current),
        !(token is Ok && size.code == 122 && user is Ok) ==> current is Err,
        named is Ok <==> size.code == 122 && found is Ok,
        named is Ok ==> named->Ok_0@ == found->Ok_0@,
{
    reveal_with_fuel(error::first_refusal, 5);
    let all = seq![token, native::size_told(size), user];
    assert(all.drop_first()[0] == native::size_told(size));
    assert(all.drop_first().drop_first()[0] == user);
}

/// Whether as much was read of a token as is there.
pub open spec fn was_read(read: TokenRead) -> bool {
    &&& !read.size_succeeded && read.required > 0 && read.size_status.code == 122
    &&& read.capacity <= 0xffff_ffff
    &&& read.filled is Ok
    &&& read.length <= read.capacity
}

/// A token is read exactly where its size was told, what was offered held it, and it did
/// not grow; its user is found exactly where what was read is long enough and names one.
pub proof fn tokens_are_read_whole(
    read: &TokenRead,
    length: Result<u32, PlatformError>,
    needed: u32,
    user: Option<SidCopy>,
    sid: Result<Vec<u8>, PlatformError>,
)
    requires
        call_ensures(token_information, (read,), length),
        call_ensures(token_user_sid, (read, needed, user), sid),
    ensures
        length is Ok <==> was_read(*read),
        length matches Ok(length) ==> length == read.length,
        was_read(*read) && read.length >= needed && user is Some ==> is_copy(user->0, sid),
        !(was_read(*read) && read.length >= needed && user is Some) ==> sid is Err,
{
}

/// The name of an account is found exactly where its size was told and it is a single
/// user's; it is what its units encode before their terminator.
pub proof fn names_are_those_of_single_users(
    size: OsStatus,
    found: &Result<AccountFacts, PlatformError>,
    name: Result<String, PlatformError>,
)
    requires
        call_ensures(account_name_for_sid, (size, found), name),
    ensures
        name matches Ok(said) ==> {
            &&& size.code == 122
            &&& *found matches Ok(account) && account.kind == 1 && native::utf16(said@)
                == account.name@.take(scan::until(account.name@, 0u16) as int)
        },
        name is Err ==> size.code != 122 || *found is Err || found->Ok_0.kind != 1 || forall|
            said: Seq<char>,
        |
            #[trigger] native::utf16(said) != found->Ok_0.name@.take(
                scan::until(found->Ok_0.name@, 0u16) as int,
            ),
{
    if let Ok(account) = *found {
        let units = native::terminated(account.name@);
        if native::utf16_text(units) is Some {
            let said = native::utf16_text(units)->0;
            assert(native::utf16(said) == units);
        }
    }
}

/// A principal is made of an identifier and a name exactly where both are known and it may
/// be one; that of the current user follows the current user.
pub proof fn principals_are_made_of_what_is_known(
    id: Result<String, PlatformError>,
    name: Result<String, PlatformError>,
    policy: WorkerAccountPolicy,
    found: Result<WorkerPrincipal, PlatformError>,
    sid: Result<(), PlatformError>,
    current: Result<WorkerPrincipal, PlatformError>,
)
    requires
        call_ensures(principal_for_sid, (id, name, policy), found),
        call_ensures(resolve_current_worker_principal, (sid, id, name), current),
    ensures
        ({
            let fit = id is Ok && name is Ok && is_sid(id->Ok_0@) && id->Ok_0@ != "S-1-5-18"@
                && may_name_account(name->Ok_0@);
            &&& found is Ok <==> fit
            &&& found matches Ok(one) ==> one@.kind == PrincipalKind::WindowsSid && one@.id
                == id->Ok_0@ && one@.name == name->Ok_0@ && one@.policy == policy
            &&& current is Ok <==> sid is Ok && fit
            &&& current matches Ok(one) ==> one@.kind == PrincipalKind::WindowsSid && one@.id
                == id->Ok_0@ && one@.name == name->Ok_0@ && one@.policy
                == WorkerAccountPolicy::CurrentUser
        }),
{
    if let Ok(id) = id {
        lemma_is_sid(id@);
    }
    if let Ok(name) = name {
        lemma_may_name_account(name@);
    }
}

/// The identifier of a principal is copied exactly where it is of Windows and was read.
pub proof fn identifiers_are_those_of_windows(
    principal: &WorkerPrincipal,
    converted: Result<(), PlatformError>,
    copy: SidCopy,
    sid: Result<Vec<u8>, PlatformError>,
)
    requires
        call_ensures(principal_sid, (principal, converted, copy), sid),
    ensures
        principal@.kind == PrincipalKind::WindowsSid && converted is Ok ==> is_copy(copy, sid),
        principal@.kind != PrincipalKind::WindowsSid || converted is Err ==> sid is Err,
{
}

/// Whether an answer names a folder: it is no failure, and an absolute path that ends
/// within 32,768 units.
pub open spec fn names_folder(answer: KnownFolderAnswer) -> bool {
    &&& answer.status >= 0
    &&& answer.units matches Some(units) && scan::until(units@, 0u16) < 32768
    &&& answer.is_absolute
}

/// The user's folders are those that the answer names, up to the terminator.
pub proof fn folders_are_those_that_are_named(
    folder: KnownFolder,
    answer: &KnownFolderAnswer,
    path: Result<Vec<u16>, PlatformError>,
    data: Result<Vec<u16>, PlatformError>,
    profile: Result<Vec<u16>, PlatformError>,
)
    requires
        call_ensures(current_known_folder, (folder, answer), path),
        call_ensures(current_local_app_data, (answer,), data),
        call_ensures(current_profile_directory, (answer,), profile),
    ensures
        path is Ok <==> names_folder(*answer),
        data is Ok <==> names_folder(*answer),
        profile is Ok <==> names_folder(*answer),
        path matches Ok(units) ==> units@ == answer.units->0@.take(
            scan::until(answer.units->0@, 0u16) as int,
        ) && data->Ok_0@ == units@ && profile->Ok_0@ == units@,
{
}

/// The system's directories are what was written of them, where that fits.
pub proof fn system_directories_are_what_was_written(
    size: u32,
    status: OsStatus,
    filled: Result<(), PlatformError>,
    buffer: &[u16],
    profiles: Result<Vec<u16>, PlatformError>,
    length: usize,
    failure: PlatformError,
    system: Result<Vec<u16>, PlatformError>,
)
    requires
        call_ensures(profiles_directory, (size, status, filled, buffer), profiles),
        call_ensures(baseline_system_directory, (length, buffer, failure), system),
    ensures
        profiles is Ok <==> size > 0 && status.code == 122 && filled is Ok,
        profiles matches Ok(units) ==> units@ == buffer@.take(
            scan::until(buffer@, 0u16) as int,
        ),
        system is Ok <==> 0 < length < buffer@.len(),
        system matches Ok(units) ==> units@ == buffer@.take(length as int),
        system is Err ==> system == Err::<Vec<u16>, _>(failure),
{
}

/// An identifier of the system's own is what was written of it.
pub proof fn well_known_identifiers_are_what_was_written(
    created: Result<(), PlatformError>,
    buffer: &[u8],
    size: usize,
    sid: Result<Vec<u8>, PlatformError>,
)
    requires
        size <= buffer@.len(),
        call_ensures(well_known_sid, (created, buffer, size), sid),
    ensures
        sid is Ok <==> created is Ok,
        sid matches Ok(bytes) ==> bytes@ == buffer@.take(size as int),
{
}

/// The directories above a root that may be made are the beginnings of its path below the
/// anchor, each one longer than the one before; the five in it are its entries.
pub proof fn layouts_spell_out_their_directories(
    layout: &WorkerDirectoryLayout,
    above: Vec<WorkerPath>,
    repos: &WorkerPath,
    jobs: &WorkerPath,
    cache: &WorkerPath,
    artifacts: &WorkerPath,
    logs: &WorkerPath,
    i: u16,
)
    requires
        call_ensures(WorkerDirectoryLayout::support_paths, (layout,), above),
        call_ensures(WorkerDirectoryLayout::repos, (layout,), repos),
        call_ensures(WorkerDirectoryLayout::jobs, (layout,), jobs),
        call_ensures(WorkerDirectoryLayout::cache, (layout,), cache),
        call_ensures(WorkerDirectoryLayout::artifacts, (layout,), artifacts),
        call_ensures(WorkerDirectoryLayout::logs, (layout,), logs),
    ensures
        i < above@.len() <==> belongs(layout, WorkerDirectoryNode::Support { ordinal: i }),
        i < above@.len() ==> {
            let path = above@[i as int]@;
            &&& path.prefix == layout@.root.prefix
            &&& path.components == layout@.root.components.take(
                layout@.policy->anchor.components.len() + i + 1,
            )
        },
        is_entry(repos@, layout@.root, units("repos"@)),
        is_entry(jobs@, layout@.root, units("jobs"@)),
        is_entry(cache@, layout@.root, units("cache"@)),
        is_entry(artifacts@, layout@.root, units("artifacts"@)),
        is_entry(logs@, layout@.root, units("logs"@)),
{
    lemma_units("repos"@);
    lemma_units("jobs"@);
    lemma_units("cache"@);
    lemma_units("artifacts"@);
    lemma_units("logs"@);
    let root = layout@.root.components;
    assert(repos@.components =~= root + seq![repos@.components.last()]);
    assert(jobs@.components =~= root + seq![jobs@.components.last()]);
    assert(cache@.components =~= root + seq![cache@.components.last()]);
    assert(artifacts@.components =~= root + seq![artifacts@.components.last()]);
    assert(logs@.components =~= root + seq![logs@.components.last()]);
}

/// Names are the same exactly where Windows compares them as equal.
pub proof fn names_are_compared_by_windows<F: Fn(&[u16], &[u16]) -> i32>(
    left: &[u16],
    right: &[u16],
    compare: &F,
    same: bool,
)
    requires
        call_ensures(windows_names_equal::<F>, (left, right, compare), same),
    ensures
        same <==> are_same(*compare, left@, right@),
{
}

} // verus!
