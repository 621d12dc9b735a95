//! Choosing the root of a worker, and checking whom it is for.

use crate::error;
use crate::error::{invalid_data, permission_denied, ErrorKind, PlatformError};
use crate::layout;
use crate::layout::{
    InstallationScope, LayoutModel, PathModel, PolicyModel, WorkerDirectoryLayout, WorkerPath,
    WorkerRootCreationPolicy,
};
use crate::principal::{PrincipalKind, PrincipalModel, WorkerAccountPolicy, WorkerPrincipal};
use crate::scan;
use crate::windows_account::verify_worker_principal;
use crate::windows_path;
use crate::windows_path::{worker_root_path_is_normalized, WindowsWorkerPath, BACKSLASH};
use vstd::prelude::*;
use vstd::slice::{slice_subrange, slice_to_vec};

verus! {

// ---------------------------------------------------------------------------
// Principals
// ---------------------------------------------------------------------------

/// What is known of a principal that was looked up.
pub open spec fn looked_up(result: Result<WorkerPrincipal, PlatformError>) -> Result<
    PrincipalModel,
    PlatformError,
> {
    match result {
        Ok(principal) => Ok(principal@),
        Err(failure) => Err(failure),
    }
}

/// Whether a user's own worker may be for `selected`.
pub open spec fn user_scope_verdict(selected: PrincipalModel, current: PrincipalModel) -> Result<
    (),
    PlatformError,
> {
    if selected.policy != WorkerAccountPolicy::CurrentUser {
        Err(error::denied("user-scope worker must use the current-user account policy"))
    } else if selected != current {
        Err(error::denied("user-scope worker must be the current native principal"))
    } else {
        Ok(())
    }
}

/// Accepts a principal for a user's own worker: only the current user.
pub fn validate_user_scope_principal(selected: &WorkerPrincipal, current: &WorkerPrincipal) -> (result:
    Result<(), PlatformError>)
    ensures
        result == user_scope_verdict(selected@, current@),
{
    if selected.account_policy() != WorkerAccountPolicy::CurrentUser {
        return Err(
            permission_denied("user-scope worker must use the current-user account policy"),
        );
    }
    if !selected.same_as(current) {
        return Err(permission_denied("user-scope worker must be the current native principal"));
    }
    Ok(())
}

/// What a look at a principal before a change says: it must still be the same,
/// and for a user's own worker still be the current user.
pub open spec fn revalidation_verdict(
    scope: InstallationScope,
    expected: PrincipalModel,
    resolved: Result<PrincipalModel, PlatformError>,
    current: Option<PrincipalModel>,
) -> Result<(), PlatformError> {
    match resolved {
        Err(_) => Err(
            error::denied("worker principal could not be revalidated before filesystem mutation"),
        ),
        Ok(resolved) => if resolved != expected {
            Err(
                error::denied(
                    "worker principal identity or name drifted before filesystem mutation",
                ),
            )
        } else if scope == InstallationScope::User {
            match current {
                None => Err(
                    error::denied(
                        "current user could not be revalidated before filesystem mutation",
                    ),
                ),
                Some(current) => user_scope_verdict(expected, current),
            }
        } else {
            Ok(())
        },
    }
}

/// What an optional principal is.
pub open spec fn optional_principal(principal: Option<&WorkerPrincipal>) -> Option<PrincipalModel> {
    match principal {
        Some(principal) => Some(principal@),
        None => None,
    }
}

/// Accepts a principal before a change; `resolved` is what its identifier now
/// resolves to, and `current` the current user.
pub fn validate_revalidated_worker_principal(
    scope: InstallationScope,
    expected: &WorkerPrincipal,
    resolved: Result<WorkerPrincipal, PlatformError>,
    current: Option<&WorkerPrincipal>,
) -> (result: Result<WorkerPrincipal, PlatformError>)
    ensures
        match result {
            Ok(principal) => {
                &&& revalidation_verdict(
                    scope,
                    expected@,
                    looked_up(resolved),
                    optional_principal(current),
                ) is Ok
                &&& principal@ == expected@
            },
            Err(refusal) => revalidation_verdict(
                scope,
                expected@,
                looked_up(resolved),
                optional_principal(current),
            ) == Err::<(), _>(refusal),
        },
{
    let resolved = match resolved {
        Ok(resolved) => resolved,
        Err(_) => {
            return Err(
                permission_denied(
                    "worker principal could not be revalidated before filesystem mutation",
                ),
            );
        },
    };
    if !resolved.same_as(expected) {
        return Err(
            permission_denied(
                "worker principal identity or name drifted before filesystem mutation",
            ),
        );
    }
    if scope == InstallationScope::User {
        let current = match current {
            Some(current) => current,
            None => {
                return Err(
                    permission_denied(
                        "current user could not be revalidated before filesystem mutation",
                    ),
                );
            },
        };
        match validate_user_scope_principal(expected, current) {
            Ok(()) => {},
            Err(refusal) => {
                return Err(refusal);
            },
        }
    }
    Ok(resolved)
}

/// Accepts the principal of a layout before a change. `sid` says whether its
/// identifier could be read, `resolved` what it now resolves to, and `current`
/// who the current user is.
pub fn revalidate_worker_root_principal(
    layout: &WorkerDirectoryLayout,
    sid: Result<(), PlatformError>,
    resolved: Result<WorkerPrincipal, PlatformError>,
    current: Result<WorkerPrincipal, PlatformError>,
) -> (result: Result<WorkerPrincipal, PlatformError>)
    ensures
        match sid {
            Err(failure) => result == Err::<WorkerPrincipal, _>(failure),
            Ok(()) => if layout@.scope == InstallationScope::User && current is Err {
                result == Err::<WorkerPrincipal, _>(current->Err_0)
            } else {
                let verdict = revalidation_verdict(
                    layout@.scope,
                    layout@.principal,
                    looked_up(resolved),
                    if layout@.scope == InstallationScope::User {
                        Some(current->Ok_0@)
                    } else {
                        None
                    },
                );
                match result {
                    Ok(principal) => verdict is Ok && principal@ == layout@.principal,
                    Err(refusal) => verdict == Err::<(), _>(refusal),
                }
            },
        },
{
    match sid {
        Ok(()) => {},
        Err(failure) => {
            return Err(failure);
        },
    }
    if layout.installation_scope() == InstallationScope::User {
        match current {
            Ok(current) => validate_revalidated_worker_principal(
                layout.installation_scope(),
                layout.worker_principal(),
                resolved,
                Some(&current),
            ),
            Err(failure) => Err(failure),
        }
    } else {
        validate_revalidated_worker_principal(
            layout.installation_scope(),
            layout.worker_principal(),
            resolved,
            None,
        )
    }
}

/// No change is made for a principal that is not the one it was planned for.
pub proof fn only_the_planned_principal_is_revalidated(
    scope: InstallationScope,
    expected: PrincipalModel,
    resolved: Result<PrincipalModel, PlatformError>,
    current: Option<PrincipalModel>,
)
    ensures
        revalidation_verdict(scope, expected, resolved, current) is Ok ==> {
            &&& resolved == Ok::<_, PlatformError>(expected)
            &&& scope == InstallationScope::User ==> current == Some(expected) && expected.policy
                == WorkerAccountPolicy::CurrentUser
        },
{
}

/// What a look at the principal of a new worker says.
pub open spec fn root_principal_verdict(
    scope: InstallationScope,
    principal: PrincipalModel,
    resolved: Result<PrincipalModel, PlatformError>,
    current: Result<PrincipalModel, PlatformError>,
) -> Result<(), PlatformError> {
    if principal.kind != PrincipalKind::WindowsSid {
        Err(error::malformed("worker principal kind does not match Windows"))
    } else {
        match resolved {
            Err(failure) => Err(failure),
            Ok(resolved) => if resolved != principal {
                Err(error::denied("worker SID/name identity drift detected"))
            } else if scope == InstallationScope::User {
                match current {
                    Err(failure) => Err(failure),
                    Ok(current) => user_scope_verdict(principal, current),
                }
            } else {
                Ok(())
            },
        }
    }
}

fn copy_lookup(result: &Result<WorkerPrincipal, PlatformError>) -> (copy: Result<
    WorkerPrincipal,
    PlatformError,
>)
    ensures
        looked_up(copy) == looked_up(*result),
{
    match result {
        Ok(principal) => Ok(principal.clone()),
        Err(failure) => Err(*failure),
    }
}

/// Accepts the principal of a new worker; `resolved` is what its identifier
/// resolves to, and `current` who the current user is.
pub fn validate_worker_root_principal(
    scope: InstallationScope,
    principal: &WorkerPrincipal,
    resolved: &Result<WorkerPrincipal, PlatformError>,
    current: &Result<WorkerPrincipal, PlatformError>,
) -> (result: Result<(), PlatformError>)
    ensures
        result == root_principal_verdict(
            scope,
            principal@,
            looked_up(*resolved),
            looked_up(*current),
        ),
{
    match verify_worker_principal(principal, copy_lookup(resolved)) {
        Ok(()) => {},
        Err(refusal) => {
            return Err(refusal);
        },
    }
    if scope == InstallationScope::User {
        match current {
            Ok(current) => validate_user_scope_principal(principal, current),
            Err(failure) => Err(*failure),
        }
    } else {
        Ok(())
    }
}

// ---------------------------------------------------------------------------
// Roots
// ---------------------------------------------------------------------------

/// The path that normalized text spells.
pub open spec fn path_of(units: Seq<u16>) -> PathModel {
    PathModel {
        prefix: layout::folded_prefix(units.take(3)),
        components: scan::split_on(units.skip(3), BACKSLASH),
    }
}

/// A folder that Windows named: its path, and the full path that Windows reports
/// for it.
#[derive(Debug)]
pub struct FolderFacts {
    pub units: Vec<u16>,
    pub full: Option<Vec<u16>>,
}

/// What was found out to place a worker's root: what its principal resolves to,
/// who the current user is, the user's folders, and the full path that Windows
/// reports for the root below them.
#[derive(Debug)]
pub struct WorkerRootFacts {
    pub resolved: Result<WorkerPrincipal, PlatformError>,
    pub current: Result<WorkerPrincipal, PlatformError>,
    pub local_app_data: Result<FolderFacts, PlatformError>,
    pub profile: Result<FolderFacts, PlatformError>,
    pub root_full: Option<Vec<u16>>,
}

/// Whether a folder's path is spelled as Windows itself would spell it.
pub open spec fn folder_is_normal(folder: FolderFacts) -> bool {
    windows_path::normal_path(folder.units@, windows_path::optional_units(folder.full))
}

/// The text of the root below a folder.
pub open spec fn root_text(data: Seq<u16>) -> Seq<u16> {
    data + seq![BACKSLASH] + layout::ascii_units("Styrn"@)
}

/// The root and the policy of a system's worker.
pub open spec fn system_root() -> PathModel {
    PathModel {
        prefix: layout::ascii_units("C:\\"@),
        components: seq![layout::ascii_units("Styrn"@)],
    }
}

/// Where a worker's root stands that was not chosen, or why it has no place.
pub open spec fn default_root<F: Fn(&[u16], &[u16]) -> i32>(
    compare: F,
    scope: InstallationScope,
    principal: PrincipalModel,
    facts: WorkerRootFacts,
) -> Result<(PathModel, PolicyModel), PlatformError> {
    match root_principal_verdict(
        scope,
        principal,
        looked_up(facts.resolved),
        looked_up(facts.current),
    ) {
        Err(refusal) => Err(refusal),
        Ok(()) => if scope == InstallationScope::System {
            Ok((system_root(), PolicyModel::ExistingParent { allow_untrusted_parent_create: true }))
        } else {
            match (facts.local_app_data, facts.profile) {
                (Err(failure), _) => Err(failure),
                (Ok(_), Err(failure)) => Err(failure),
                (Ok(data), Ok(profile)) => if !folder_is_normal(data) || !folder_is_normal(
                    profile,
                ) {
                    Err(error::malformed("worker directory path is not normalized"))
                } else if !windows_path::normal_path(
                    root_text(data.units@),
                    windows_path::optional_units(facts.root_full),
                ) {
                    Err(error::malformed("Windows LocalAppData is not an exact normalized path"))
                } else {
                    Ok(
                        (
                            path_of(root_text(data.units@)),
                            if windows_path::path_below(
                                compare,
                                windows_path::parsed(data.units@),
                                windows_path::parsed(profile.units@),
                            ) {
                                PolicyModel::CreateMissingFrom { anchor: path_of(profile.units@) }
                            } else {
                                PolicyModel::ExistingParent { allow_untrusted_parent_create: false }
                            },
                        ),
                    )
                },
            }
        },
    }
}

proof fn lemma_root_names()
    ensures
        "C:\\"@ =~= seq!['C', ':', '\\'],
        "Styrn"@ =~= seq!['S', 't', 'y', 'r', 'n'],
{
    reveal_strlit("C:\\");
    reveal_strlit("Styrn");
}

fn styrn_units() -> (units: Vec<u16>)
    ensures
        units@ == layout::ascii_units("Styrn"@),
{
    proof {
        lemma_root_names();
    }
    let mut units: Vec<u16> = Vec::new();
    units.push(0x53);
    units.push(0x74);
    units.push(0x79);
    units.push(0x72);
    units.push(0x6e);
    assert(units@ =~= layout::ascii_units("Styrn"@));
    units
}

fn system_root_path() -> (path: WorkerPath)
    ensures
        path@ == system_root(),
{
    proof {
        lemma_root_names();
    }
    let mut prefix: Vec<u16> = Vec::new();
    prefix.push(0x43);
    prefix.push(0x3a);
    prefix.push(0x5c);
    assert(prefix@ =~= layout::ascii_units("C:\\"@));
    let mut components: Vec<Vec<u16>> = Vec::new();
    components.push(styrn_units());
    let path = WorkerPath { prefix, components };
    assert(path@.prefix =~= system_root().prefix);
    assert(path@.components =~= system_root().components);
    path
}

fn to_path(path: WindowsWorkerPath, units: &[u16]) -> (converted: WorkerPath)
    requires
        path@ == windows_path::parsed(units@),
        units@.len() >= 3,
    ensures
        converted@ == path_of(units@),
{
    let prefix = slice_to_vec(slice_subrange(units, 0, 3));
    assert(prefix@ =~= units@.take(3));
    WorkerPath { prefix, components: path.components }
}

/// Places a worker's root that was not chosen.
pub fn default_worker_root<F: Fn(&[u16], &[u16]) -> i32>(
    scope: InstallationScope,
    principal: &WorkerPrincipal,
    facts: &WorkerRootFacts,
    compare: &F,
) -> (result: Result<(WorkerPath, WorkerRootCreationPolicy), PlatformError>)
    requires
        windows_path::comparer(*compare),
    ensures
        match result {
            Ok((root, policy)) => default_root(*compare, scope, principal@, *facts) == Ok::<
                _,
                PlatformError,
            >((root@, policy@)),
            Err(refusal) => default_root(*compare, scope, principal@, *facts) == Err::<
                (PathModel, PolicyModel),
                _,
            >(refusal),
        },
{
    match validate_worker_root_principal(scope, principal, &facts.resolved, &facts.current) {
        Ok(()) => {},
        Err(refusal) => {
            return Err(refusal);
        },
    }
    if scope == InstallationScope::System {
        return Ok(
            (
                system_root_path(),
                WorkerRootCreationPolicy::ExistingParent { allow_untrusted_parent_create: true },
            ),
        );
    }
    let data = match &facts.local_app_data {
        Ok(data) => data,
        Err(failure) => {
            return Err(*failure);
        },
    };
    let profile = match &facts.profile {
        Ok(profile) => profile,
        Err(failure) => {
            return Err(*failure);
        },
    };
    let data_path = match WindowsWorkerPath::parse(&data.units, &data.full) {
        Ok(path) => path,
        Err(refusal) => {
            return Err(refusal);
        },
    };
    let profile_path = match WindowsWorkerPath::parse(&profile.units, &profile.full) {
        Ok(path) => path,
        Err(refusal) => {
            return Err(refusal);
        },
    };
    let below = data_path.has_component_prefix(&profile_path, compare);
    let mut text = slice_to_vec(data.units.as_slice());
    text.push(BACKSLASH);
    let mut name = styrn_units();
    text.append(&mut name);
    assert(text@ =~= root_text(data.units@));
    let root = match WindowsWorkerPath::parse(&text, &facts.root_full) {
        Ok(path) => to_path(path, &text),
        Err(_) => {
            return Err(invalid_data("Windows LocalAppData is not an exact normalized path"));
        },
    };
    let policy = if below {
        WorkerRootCreationPolicy::CreateMissingFrom {
            anchor: to_path(profile_path, &profile.units),
        }
    } else {
        WorkerRootCreationPolicy::ExistingParent { allow_untrusted_parent_create: false }
    };
    Ok((root, policy))
}

/// The refusal of a chosen root.
pub open spec fn override_refusal() -> PlatformError {
    error::bad_input("worker root override must be a normalized absolute non-root path")
}

/// Accepts a chosen root: an absolute path with at least one component that is
/// spelled as Windows itself would spell it. `full` is the full path that
/// Windows reports for it.
pub fn validate_worker_root_override(root: &[u16], full: &Option<Vec<u16>>) -> (result: Result<
    (),
    PlatformError,
>)
    ensures
        result == (if windows_path::normal_path(root@, windows_path::optional_units(*full)) {
            Ok::<(), PlatformError>(())
        } else {
            Err(override_refusal())
        }),
{
    if worker_root_path_is_normalized(root, full) {
        Ok(())
    } else {
        Err(
            PlatformError::Policy {
                kind: ErrorKind::InvalidInput,
                message: "worker root override must be a normalized absolute non-root path",
            },
        )
    }
}

/// The layout for a worker, or why there is none. A chosen root is the root
/// itself; nothing is made above it.
pub open spec fn resolved_layout<F: Fn(&[u16], &[u16]) -> i32>(
    compare: F,
    scope: InstallationScope,
    principal: PrincipalModel,
    override_root: Option<FolderFacts>,
    facts: WorkerRootFacts,
) -> Result<LayoutModel, PlatformError> {
    if scope == InstallationScope::User && principal.policy != WorkerAccountPolicy::CurrentUser {
        Err(error::denied("user-scope worker must use the current-user account policy"))
    } else {
        match root_principal_verdict(
            scope,
            principal,
            looked_up(facts.resolved),
            looked_up(facts.current),
        ) {
            Err(refusal) => Err(refusal),
            Ok(()) => match override_root {
                Some(chosen) => if folder_is_normal(chosen) {
                    Ok(
                        LayoutModel {
                            scope,
                            root: path_of(chosen.units@),
                            policy: PolicyModel::ExistingParent {
                                allow_untrusted_parent_create: false,
                            },
                            principal,
                        },
                    )
                } else {
                    Err(override_refusal())
                },
                None => match default_root(compare, scope, principal, facts) {
                    Err(refusal) => Err(refusal),
                    Ok((root, policy)) => Ok(LayoutModel { scope, root, policy, principal }),
                },
            },
        }
    }
}

/// Lays out a worker.
pub fn resolve_worker_directory_layout<F: Fn(&[u16], &[u16]) -> i32>(
    scope: InstallationScope,
    principal: &WorkerPrincipal,
    override_root: &Option<FolderFacts>,
    facts: &WorkerRootFacts,
    compare: &F,
) -> (result: Result<WorkerDirectoryLayout, PlatformError>)
    requires
        windows_path::comparer(*compare),
    ensures
        match result {
            Ok(layout) => resolved_layout(
                *compare,
                scope,
                principal@,
                *override_root,
                *facts,
            ) == Ok::<_, PlatformError>(layout@),
            Err(refusal) => resolved_layout(
                *compare,
                scope,
                principal@,
                *override_root,
                *facts,
            ) == Err::<LayoutModel, _>(refusal),
        },
{
    if scope == InstallationScope::User && principal.account_policy()
        != WorkerAccountPolicy::CurrentUser {
        return Err(
            permission_denied("user-scope worker must use the current-user account policy"),
        );
    }
    match validate_worker_root_principal(scope, principal, &facts.resolved, &facts.current) {
        Ok(()) => {},
        Err(refusal) => {
            return Err(refusal);
        },
    }
    match override_root {
        Some(chosen) => {
            match validate_worker_root_override(&chosen.units, &chosen.full) {
                Ok(()) => {},
                Err(refusal) => {
                    return Err(refusal);
                },
            }
            match WindowsWorkerPath::parse(&chosen.units, &chosen.full) {
                Ok(path) => {
                    let root = to_path(path, &chosen.units);
                    let policy = WorkerRootCreationPolicy::ExistingParent {
                        allow_untrusted_parent_create: false,
                    };
                    Ok(WorkerDirectoryLayout::new(scope, root, policy, principal.clone()))
                },
                Err(refusal) => Err(refusal),
            }
        },
        None => match default_worker_root(scope, principal, facts, compare) {
            Ok((root, policy)) => Ok(
                WorkerDirectoryLayout::new(scope, root, policy, principal.clone()),
            ),
            Err(refusal) => Err(refusal),
        },
    }
}

/// A chosen root is the root of the layout, not a directory above it.
pub proof fn chosen_roots_are_exact<F: Fn(&[u16], &[u16]) -> i32>(
    compare: F,
    scope: InstallationScope,
    principal: PrincipalModel,
    chosen: FolderFacts,
    facts: WorkerRootFacts,
)
    ensures
        resolved_layout(compare, scope, principal, Some(chosen), facts) matches Ok(made)
            ==> made.root == path_of(chosen.units@) && layout::support_count(made) == 0,
{
}

} // verus!
