//! Where a worker's files stand: one root with five directories in it, and the
//! directories that may have to be made above it.

use crate::number;
use crate::number::numbered;
use crate::principal::{PrincipalModel, WorkerPrincipal};
use crate::text::same_text;
use crate::windows_path;
use crate::windows_path::{same_units, BACKSLASH, COLON};
use vstd::prelude::*;
use vstd::slice::slice_to_vec;

verus! {

/// The question mark, as it stands in `\\?\C:\`.
pub const QUESTION: u16 = 0x3f;

// ---------------------------------------------------------------------------
// Paths
// ---------------------------------------------------------------------------

/// Whether a unit of a prefix is the letter of a drive, as in `C:\` and in
/// `\\?\C:\`.
pub open spec fn is_drive_letter(prefix: Seq<u16>, at: int) -> bool {
    &&& at + 1 < prefix.len()
    &&& prefix[at + 1] == COLON
    &&& at == 0 || at == 4 && prefix[0] == BACKSLASH && prefix[1] == BACKSLASH && prefix[2]
        == QUESTION && prefix[3] == BACKSLASH
}

/// A unit, as a capital where it is a letter of the alphabet.
pub open spec fn capital(unit: u16) -> u16 {
    if 0x61 <= unit <= 0x7a {
        (unit - 0x20) as u16
    } else {
        unit
    }
}

/// A prefix whose drive, if it has one, is written as a capital.
pub open spec fn folded_prefix(prefix: Seq<u16>) -> Seq<u16> {
    Seq::new(
        prefix.len(),
        |i: int|
            if is_drive_letter(prefix, i) {
                capital(prefix[i])
            } else {
                prefix[i]
            },
    )
}

/// An absolute path: what stands before its first component, and its
/// components.
#[derive(Debug)]
pub struct WorkerPath {
    pub prefix: Vec<u16>,
    pub components: Vec<Vec<u16>>,
}

/// What a path is. Paths that differ only in the case of their drive are the
/// same path.
#[verifier::ext_equal]
pub struct PathModel {
    pub prefix: Seq<u16>,
    pub components: Seq<Seq<u16>>,
}

impl View for WorkerPath {
    type V = PathModel;

    open spec fn view(&self) -> PathModel {
        PathModel {
            prefix: folded_prefix(self.prefix@),
            components: windows_path::unit_views(self.components@),
        }
    }
}

/// The code units of a text of ASCII characters.
pub open spec fn ascii_units(text: Seq<char>) -> Seq<u16> {
    text.map_values(|c: char| c as u16)
}

/// The path of an entry in a directory.
pub open spec fn joined(path: PathModel, name: Seq<u16>) -> PathModel {
    PathModel { prefix: path.prefix, components: path.components.push(name) }
}

/// The path of the first `count` components.
pub open spec fn shortened(path: PathModel, count: nat) -> PathModel {
    PathModel { prefix: path.prefix, components: path.components.take(count as int) }
}

/// Whether a path lies at or below another, component by component.
pub open spec fn lies_below(path: PathModel, ancestor: PathModel) -> bool {
    &&& path.prefix == ancestor.prefix
    &&& ancestor.components.len() <= path.components.len()
    &&& path.components.take(ancestor.components.len() as int) == ancestor.components
}

fn fold_prefix(prefix: &[u16]) -> (folded: Vec<u16>)
    ensures
        folded@ == folded_prefix(prefix@),
{
    let verbatim = prefix.len() > 4 && prefix[0] == BACKSLASH && prefix[1] == BACKSLASH && prefix[2]
        == QUESTION && prefix[3] == BACKSLASH;
    let mut folded: Vec<u16> = Vec::new();
    for i in 0..prefix.len()
        invariant
            verbatim == (prefix@.len() > 4 && prefix@[0] == BACKSLASH && prefix@[1] == BACKSLASH
                && prefix@[2] == QUESTION && prefix@[3] == BACKSLASH),
            folded@.len() == i,
            forall|k: int| 0 <= k < i ==> folded@[k] == folded_prefix(prefix@)[k],
    {
        let unit: u16 = prefix[i];
        let letter = (i == 0 || i == 4 && verbatim) && i + 1 < prefix.len() && prefix[i + 1]
            == COLON;
        if letter && 0x61 <= unit && unit <= 0x7a {
            folded.push(unit - 0x20);
        } else {
            folded.push(unit);
        }
    }
    assert(folded@ =~= folded_prefix(prefix@));
    folded
}

fn copy_units(units: &[u16]) -> (copy: Vec<u16>)
    ensures
        copy@ == units@,
{
    slice_to_vec(units)
}

pub(crate) fn to_units(name: &str) -> (units: Vec<u16>)
    requires
        forall|i: int| 0 <= i < name@.len() ==> (#[trigger] name@[i]) as u32 <= 0x7f,
    ensures
        units@ == ascii_units(name@),
{
    let chars = crate::text::chars_of(name);
    let mut units: Vec<u16> = Vec::new();
    for i in 0..chars.len()
        invariant
            chars@ == name@,
            forall|i: int| 0 <= i < name@.len() ==> (#[trigger] name@[i]) as u32 <= 0x7f,
            units@.len() == i,
            forall|k: int| 0 <= k < i ==> (#[trigger] units@[k]) == name@[k] as u16,
    {
        assert(name@[i as int] as u32 <= 0x7f);
        units.push(chars[i] as u16);
    }
    assert(units@ =~= ascii_units(name@));
    units
}

impl WorkerPath {
    /// The path of the first `count` components.
    pub fn first(&self, count: usize) -> (path: WorkerPath)
        requires
            count <= self@.components.len(),
        ensures
            path@ == shortened(self@, count as nat),
            path.prefix@ == self.prefix@,
    {
        let mut components: Vec<Vec<u16>> = Vec::new();
        for i in 0..count
            invariant
                count <= self.components@.len(),
                components@.len() == i,
                forall|k: int|
                    0 <= k < i ==> (#[trigger] components@[k])@ == self.components@[k]@,
        {
            components.push(copy_units(&self.components[i]));
        }
        let path = WorkerPath { prefix: copy_units(&self.prefix), components };
        assert(path@.components =~= self@.components.take(count as int));
        path
    }

    /// The path of an entry in this directory.
    pub fn join(&self, name: &[u16]) -> (path: WorkerPath)
        ensures
            path@ == joined(self@, name@),
            path.prefix@ == self.prefix@,
    {
        let mut path = self.first(self.components.len());
        let ghost before = path@.components;
        path.components.push(copy_units(name));
        assert(before =~= self@.components);
        assert(path@.components =~= self@.components.push(name@));
        path
    }

    /// Whether two paths are the same.
    pub fn same_as(&self, other: &WorkerPath) -> (same: bool)
        ensures
            same == (self@ == other@),
    {
        assert(self@.components.len() == self.components@.len());
        assert(other@.components.len() == other.components@.len());
        assert(self@.components.take(self@.components.len() as int) =~= self@.components);
        self.components.len() == other.components.len() && self.starts_with(other)
    }

    /// Whether this path lies at or below `ancestor`.
    pub fn starts_with(&self, ancestor: &WorkerPath) -> (below: bool)
        ensures
            below == lies_below(self@, ancestor@),
    {
        let ghost mine = self@.components;
        let ghost theirs = ancestor@.components;
        if !same_units(&fold_prefix(&self.prefix), &fold_prefix(&ancestor.prefix)) || ancestor.components.len()
            > self.components.len() {
            return false;
        }
        for i in 0..ancestor.components.len()
            invariant
                mine == self@.components,
                theirs == ancestor@.components,
                theirs.len() <= mine.len(),
                forall|k: int| 0 <= k < i ==> mine[k] == theirs[k],
        {
            if !same_units(&self.components[i], &ancestor.components[i]) {
                proof {
                    assert(mine[i as int] != theirs[i as int]);
                    assert(mine.take(theirs.len() as int)[i as int] == mine[i as int]);
                }
                return false;
            }
        }
        assert(mine.take(theirs.len() as int) =~= theirs);
        true
    }
}

impl PartialEq for WorkerPath {
    fn eq(&self, other: &Self) -> (same: bool) {
        self.same_as(other)
    }
}

impl vstd::std_specs::cmp::PartialEqSpecImpl for WorkerPath {
    open spec fn obeys_eq_spec() -> bool {
        true
    }

    open spec fn eq_spec(&self, other: &Self) -> bool {
        self@ == other@
    }
}

impl Eq for WorkerPath {}

impl Clone for WorkerPath {
    fn clone(&self) -> (copy: Self)
        ensures
            copy@ == self@,
            copy.prefix@ == self.prefix@,
    {
        let copy = self.first(self.components.len());
        assert(copy@.components =~= self@.components);
        copy
    }
}

// ---------------------------------------------------------------------------
// Layouts
// ---------------------------------------------------------------------------

/// For whom a worker is installed.
#[derive(Clone, Copy, Debug, PartialEq, Eq, Structural)]
pub enum InstallationScope {
    User,
    System,
}

impl InstallationScope {
    /// Reads a scope from its name.
    pub fn parse(value: &str) -> (result: Result<Self, &'static str>)
        ensures
            if value@ == "user"@ {
                result == Ok::<_, &'static str>(InstallationScope::User)
            } else if value@ == "system"@ {
                result == Ok::<_, &'static str>(InstallationScope::System)
            } else {
                result matches Err(message) && message@ == "scope must be 'user' or 'system'"@
            },
    {
        if same_text(value, "user") {
            Ok(InstallationScope::User)
        } else if same_text(value, "system") {
            Ok(InstallationScope::System)
        } else {
            Err("scope must be 'user' or 'system'")
        }
    }
}

/// What may be made above a worker root.
#[derive(Debug)]
pub enum WorkerRootCreationPolicy {
    /// Nothing: the parent must exist. Whether others may make entries in it.
    ExistingParent { allow_untrusted_parent_create: bool },
    /// Every directory below this one.
    CreateMissingFrom { anchor: WorkerPath },
}

/// What a policy is.
#[verifier::ext_equal]
pub enum PolicyModel {
    ExistingParent { allow_untrusted_parent_create: bool },
    CreateMissingFrom { anchor: PathModel },
}

impl View for WorkerRootCreationPolicy {
    type V = PolicyModel;

    open spec fn view(&self) -> PolicyModel {
        match *self {
            WorkerRootCreationPolicy::ExistingParent { allow_untrusted_parent_create } =>
                PolicyModel::ExistingParent { allow_untrusted_parent_create },
            WorkerRootCreationPolicy::CreateMissingFrom { anchor } =>
                PolicyModel::CreateMissingFrom { anchor: anchor@ },
        }
    }
}

impl Clone for WorkerRootCreationPolicy {
    fn clone(&self) -> (copy: Self)
        ensures
            copy@ == self@,
    {
        match self {
            WorkerRootCreationPolicy::ExistingParent { allow_untrusted_parent_create } =>
                WorkerRootCreationPolicy::ExistingParent {
                allow_untrusted_parent_create: *allow_untrusted_parent_create,
            },
            WorkerRootCreationPolicy::CreateMissingFrom { anchor } =>
                WorkerRootCreationPolicy::CreateMissingFrom { anchor: anchor.clone() },
        }
    }
}

/// One directory of a layout.
#[derive(Clone, Copy, Debug, PartialEq, Eq, Structural)]
pub enum WorkerDirectoryNode {
    Support { ordinal: u16 },
    Root,
    Repos,
    Jobs,
    Cache,
    Artifacts,
    Logs,
}

/// The name of the action that makes a directory.
pub open spec fn node_action(node: WorkerDirectoryNode) -> Seq<char> {
    match node {
        WorkerDirectoryNode::Support { ordinal } => "identity.directory.support-"@
            + number::decimal(ordinal as nat),
        WorkerDirectoryNode::Root => "identity.directory.root"@,
        WorkerDirectoryNode::Repos => "identity.directory.repos"@,
        WorkerDirectoryNode::Jobs => "identity.directory.jobs"@,
        WorkerDirectoryNode::Cache => "identity.directory.cache"@,
        WorkerDirectoryNode::Artifacts => "identity.directory.artifacts"@,
        WorkerDirectoryNode::Logs => "identity.directory.logs"@,
    }
}

impl WorkerDirectoryNode {
    /// The name of the action that makes this directory.
    pub fn action_id(self) -> (id: String)
        ensures
            id@ == node_action(self),
    {
        match self {
            WorkerDirectoryNode::Support { ordinal } => numbered(
                "identity.directory.support-",
                ordinal as u64,
            ),
            WorkerDirectoryNode::Root => "identity.directory.root".to_owned(),
            WorkerDirectoryNode::Repos => "identity.directory.repos".to_owned(),
            WorkerDirectoryNode::Jobs => "identity.directory.jobs".to_owned(),
            WorkerDirectoryNode::Cache => "identity.directory.cache".to_owned(),
            WorkerDirectoryNode::Artifacts => "identity.directory.artifacts".to_owned(),
            WorkerDirectoryNode::Logs => "identity.directory.logs".to_owned(),
        }
    }
}

/// The worker root and the directories in it.
#[derive(Debug)]
pub struct WorkerDirectoryLayout {
    scope: InstallationScope,
    root: WorkerPath,
    repos: WorkerPath,
    jobs: WorkerPath,
    cache: WorkerPath,
    artifacts: WorkerPath,
    logs: WorkerPath,
    creation_policy: WorkerRootCreationPolicy,
    principal: WorkerPrincipal,
}

/// What a layout is.
#[verifier::ext_equal]
pub struct LayoutModel {
    pub scope: InstallationScope,
    pub root: PathModel,
    pub policy: PolicyModel,
    pub principal: PrincipalModel,
}

impl View for WorkerDirectoryLayout {
    type V = LayoutModel;

    closed spec fn view(&self) -> LayoutModel {
        LayoutModel {
            scope: self.scope,
            root: self.root@,
            policy: self.creation_policy@,
            principal: self.principal@,
        }
    }
}

/// How the prefix of a policy's anchor is spelled, where it has an anchor.
pub open spec fn spelled_prefix(policy: WorkerRootCreationPolicy) -> Seq<u16> {
    match policy {
        WorkerRootCreationPolicy::CreateMissingFrom { anchor } => anchor.prefix@,
        WorkerRootCreationPolicy::ExistingParent { .. } => seq![],
    }
}

/// The number of directories between the anchor of a policy and the root,
/// without both.
pub open spec fn support_count(layout: LayoutModel) -> nat {
    match layout.policy {
        PolicyModel::CreateMissingFrom { anchor } => if lies_below(layout.root, anchor)
            && layout.root.components.len() > anchor.components.len() {
            (layout.root.components.len() - anchor.components.len() - 1) as nat
        } else {
            0
        },
        _ => 0,
    }
}

/// The path of a support directory.
pub open spec fn support_path(layout: LayoutModel, ordinal: nat) -> PathModel {
    shortened(
        layout.root,
        (layout.policy->anchor.components.len() + ordinal + 1) as nat,
    )
}

/// The path of a directory, where it belongs to the layout.
pub open spec fn node_path(layout: LayoutModel, node: WorkerDirectoryNode) -> Option<PathModel> {
    match node {
        WorkerDirectoryNode::Support { ordinal } => if ordinal < support_count(layout) {
            Some(support_path(layout, ordinal as nat))
        } else {
            None
        },
        WorkerDirectoryNode::Root => Some(layout.root),
        WorkerDirectoryNode::Repos => Some(joined(layout.root, ascii_units("repos"@))),
        WorkerDirectoryNode::Jobs => Some(joined(layout.root, ascii_units("jobs"@))),
        WorkerDirectoryNode::Cache => Some(joined(layout.root, ascii_units("cache"@))),
        WorkerDirectoryNode::Artifacts => Some(joined(layout.root, ascii_units("artifacts"@))),
        WorkerDirectoryNode::Logs => Some(joined(layout.root, ascii_units("logs"@))),
    }
}

/// The root and the five directories in it.
pub open spec fn fixed_nodes() -> Seq<WorkerDirectoryNode> {
    seq![
        WorkerDirectoryNode::Root,
        WorkerDirectoryNode::Repos,
        WorkerDirectoryNode::Jobs,
        WorkerDirectoryNode::Cache,
        WorkerDirectoryNode::Artifacts,
        WorkerDirectoryNode::Logs,
    ]
}

/// Everything that may be made, the outermost first.
pub open spec fn all_nodes(layout: LayoutModel) -> Seq<WorkerDirectoryNode> {
    Seq::new(
        support_count(layout),
        |i: int| WorkerDirectoryNode::Support { ordinal: i as u16 },
    ) + fixed_nodes()
}

/// The layouts whose support directories can be numbered.
pub open spec fn numberable(layout: LayoutModel) -> bool {
    support_count(layout) <= 0x1_0000
}

pub proof fn lemma_child_names()
    ensures
        forall|i: int| 0 <= i < "repos"@.len() ==> (#[trigger] "repos"@[i]) as u32 <= 0x7f,
        forall|i: int| 0 <= i < "jobs"@.len() ==> (#[trigger] "jobs"@[i]) as u32 <= 0x7f,
        forall|i: int| 0 <= i < "cache"@.len() ==> (#[trigger] "cache"@[i]) as u32 <= 0x7f,
        forall|i: int| 0 <= i < "artifacts"@.len() ==> (#[trigger] "artifacts"@[i]) as u32 <= 0x7f,
        forall|i: int| 0 <= i < "logs"@.len() ==> (#[trigger] "logs"@[i]) as u32 <= 0x7f,
{
    reveal_strlit("repos");
    reveal_strlit("jobs");
    reveal_strlit("cache");
    reveal_strlit("artifacts");
    reveal_strlit("logs");
}

impl WorkerDirectoryLayout {
    #[verifier::type_invariant]
    spec fn coherent(self) -> bool {
        &&& self.repos@ == joined(self.root@, ascii_units("repos"@))
        &&& self.jobs@ == joined(self.root@, ascii_units("jobs"@))
        &&& self.cache@ == joined(self.root@, ascii_units("cache"@))
        &&& self.artifacts@ == joined(self.root@, ascii_units("artifacts"@))
        &&& self.logs@ == joined(self.root@, ascii_units("logs"@))
    }

    /// How the prefix of the anchor is spelled, where there is an anchor.
    pub closed spec fn anchor_prefix(&self) -> Seq<u16> {
        spelled_prefix(self.creation_policy)
    }

    /// The layout with this root.
    pub fn new(
        scope: InstallationScope,
        root: WorkerPath,
        creation_policy: WorkerRootCreationPolicy,
        principal: WorkerPrincipal,
    ) -> (layout: Self)
        ensures
            layout@ == (LayoutModel {
                scope,
                root: root@,
                policy: creation_policy@,
                principal: principal@,
            }),
            layout.anchor_prefix() == spelled_prefix(creation_policy),
    {
        proof {
            lemma_child_names();
        }
        WorkerDirectoryLayout {
            scope,
            repos: root.join(&to_units("repos")),
            jobs: root.join(&to_units("jobs")),
            cache: root.join(&to_units("cache")),
            artifacts: root.join(&to_units("artifacts")),
            logs: root.join(&to_units("logs")),
            root,
            creation_policy,
            principal,
        }
    }

    /// The worker root.
    pub fn root(&self) -> (path: &WorkerPath)
        ensures
            path@ == self@.root,
    {
        &self.root
    }

    /// For whom the worker is installed.
    pub fn installation_scope(&self) -> (scope: InstallationScope)
        ensures
            scope == self@.scope,
    {
        self.scope
    }

    /// Whom the worker runs as.
    pub fn worker_principal(&self) -> (principal: &WorkerPrincipal)
        ensures
            principal@ == self@.principal,
    {
        &self.principal
    }

    /// What may be made above the root.
    pub fn creation_policy(&self) -> (policy: &WorkerRootCreationPolicy)
        ensures
            policy@ == self@.policy,
            spelled_prefix(*policy) == self.anchor_prefix(),
    {
        &self.creation_policy
    }

    /// Where repositories stand.
    pub fn repos(&self) -> (path: &WorkerPath)
        ensures
            Some(path@) == node_path(self@, WorkerDirectoryNode::Repos),
    {
        proof {
            use_type_invariant(self);
        }
        &self.repos
    }

    /// Where jobs stand.
    pub fn jobs(&self) -> (path: &WorkerPath)
        ensures
            Some(path@) == node_path(self@, WorkerDirectoryNode::Jobs),
    {
        proof {
            use_type_invariant(self);
        }
        &self.jobs
    }

    /// Where the cache stands.
    pub fn cache(&self) -> (path: &WorkerPath)
        ensures
            Some(path@) == node_path(self@, WorkerDirectoryNode::Cache),
    {
        proof {
            use_type_invariant(self);
        }
        &self.cache
    }

    /// Where artifacts stand.
    pub fn artifacts(&self) -> (path: &WorkerPath)
        ensures
            Some(path@) == node_path(self@, WorkerDirectoryNode::Artifacts),
    {
        proof {
            use_type_invariant(self);
        }
        &self.artifacts
    }

    /// Where logs stand.
    pub fn logs(&self) -> (path: &WorkerPath)
        ensures
            Some(path@) == node_path(self@, WorkerDirectoryNode::Logs),
    {
        proof {
            use_type_invariant(self);
        }
        &self.logs
    }

    /// The names of the five directories.
    pub fn child_names() -> (names: [&'static str; 5])
        ensures
            names@[0]@ == "repos"@,
            names@[1]@ == "jobs"@,
            names@[2]@ == "cache"@,
            names@[3]@ == "artifacts"@,
            names@[4]@ == "logs"@,
    {
        ["repos", "jobs", "cache", "artifacts", "logs"]
    }

    /// The paths of the support directories, the outermost first.
    pub fn support_paths(&self) -> (paths: Vec<WorkerPath>)
        ensures
            paths@.len() == support_count(self@),
            forall|i: int|
                0 <= i < paths@.len() ==> (#[trigger] paths@[i])@ == support_path(
                    self@,
                    i as nat,
                ) && paths@[i].prefix@ == self.anchor_prefix(),
    {
        let mut paths: Vec<WorkerPath> = Vec::new();
        match &self.creation_policy {
            WorkerRootCreationPolicy::CreateMissingFrom { anchor } => {
                if !self.root.starts_with(anchor) || self.root.components.len()
                    == anchor.components.len() {
                    return paths;
                }
                let start: usize = anchor.components.len();
                let count: usize = self.root.components.len() - start - 1;
                for i in 0..count
                    invariant
                        self@.policy == (PolicyModel::CreateMissingFrom { anchor: anchor@ }),
                        start == anchor@.components.len(),
                        start + count + 1 == self.root.components.len(),
                        self@.root == self.root@,
                        self.root@.prefix == anchor@.prefix,
                        paths@.len() == i,
                        forall|k: int|
                            0 <= k < i ==> (#[trigger] paths@[k])@ == support_path(
                                self@,
                                k as nat,
                            ) && paths@[k].prefix@ == anchor.prefix@,
                {
                    let mut path = self.root.first(start + i + 1);
                    path.prefix = copy_units(&anchor.prefix);
                    paths.push(path);
                }
                paths
            },
            WorkerRootCreationPolicy::ExistingParent { .. } => paths,
        }
    }

    /// Everything that may be made, the outermost first.
    pub fn materialization_nodes(&self) -> (nodes: Vec<WorkerDirectoryNode>)
        requires
            numberable(self@),
        ensures
            nodes@ == all_nodes(self@),
    {
        let count: usize = self.support_paths().len();
        let mut nodes: Vec<WorkerDirectoryNode> = Vec::new();
        for i in 0..count
            invariant
                count == support_count(self@),
                count <= 0x1_0000,
                nodes@.len() == i,
                forall|k: int|
                    0 <= k < i ==> (#[trigger] nodes@[k]) == (WorkerDirectoryNode::Support {
                        ordinal: k as u16,
                    }),
        {
            nodes.push(WorkerDirectoryNode::Support { ordinal: i as u16 });
        }
        nodes.push(WorkerDirectoryNode::Root);
        nodes.push(WorkerDirectoryNode::Repos);
        nodes.push(WorkerDirectoryNode::Jobs);
        nodes.push(WorkerDirectoryNode::Cache);
        nodes.push(WorkerDirectoryNode::Artifacts);
        nodes.push(WorkerDirectoryNode::Logs);
        assert(nodes@ =~= all_nodes(self@));
        nodes
    }

    /// The path of a directory, where it belongs to this layout.
    pub fn path_for_node(&self, node: WorkerDirectoryNode) -> (path: Option<WorkerPath>)
        ensures
            match path {
                Some(path) => node_path(self@, node) == Some(path@),
                None => node_path(self@, node) is None,
            },
    {
        match node {
            WorkerDirectoryNode::Support { ordinal } => {
                let paths = self.support_paths();
                let at: usize = ordinal as usize;
                if at < paths.len() {
                    Some(paths[at].clone())
                } else {
                    None
                }
            },
            WorkerDirectoryNode::Root => Some(self.root.clone()),
            WorkerDirectoryNode::Repos => Some(self.repos().clone()),
            WorkerDirectoryNode::Jobs => Some(self.jobs().clone()),
            WorkerDirectoryNode::Cache => Some(self.cache().clone()),
            WorkerDirectoryNode::Artifacts => Some(self.artifacts().clone()),
            WorkerDirectoryNode::Logs => Some(self.logs().clone()),
        }
    }

    /// Whether a directory belongs to this layout.
    pub fn has_node(&self, node: WorkerDirectoryNode) -> (found: bool)
        ensures
            found == (node_path(self@, node) is Some),
    {
        self.path_for_node(node).is_some()
    }
}

/// A directory has a path exactly where it may be made.
pub proof fn paths_are_for_materialization_nodes(layout: LayoutModel, node: WorkerDirectoryNode)
    requires
        numberable(layout),
    ensures
        node_path(layout, node) is Some <==> all_nodes(layout).contains(node),
{
    let nodes = all_nodes(layout);
    let count = support_count(layout) as int;
    match node {
        WorkerDirectoryNode::Support { ordinal } => {
            if ordinal < count {
                assert(nodes[ordinal as int] == node);
            }
            if nodes.contains(node) {
                let i = choose|i: int| 0 <= i < nodes.len() && nodes[i] == node;
                if i >= count {
                    assert(nodes[i] == fixed_nodes()[i - count]);
                }
            }
        },
        WorkerDirectoryNode::Root => {
            assert(nodes[count] == node);
        },
        WorkerDirectoryNode::Repos => {
            assert(nodes[count + 1] == node);
        },
        WorkerDirectoryNode::Jobs => {
            assert(nodes[count + 2] == node);
        },
        WorkerDirectoryNode::Cache => {
            assert(nodes[count + 3] == node);
        },
        WorkerDirectoryNode::Artifacts => {
            assert(nodes[count + 4] == node);
        },
        WorkerDirectoryNode::Logs => {
            assert(nodes[count + 5] == node);
        },
    }
}

/// Whatever stands between the anchor and the root is made before what stands
/// in it: each support directory is the parent of the next, and the last one is
/// the parent of the root.
pub proof fn support_directories_nest(layout: LayoutModel, ordinal: nat)
    requires
        ordinal < support_count(layout),
    ensures
        ({
            let inner = if ordinal + 1 < support_count(layout) {
                support_path(layout, ordinal + 1)
            } else {
                layout.root
            };
            inner == joined(support_path(layout, ordinal), inner.components.last())
        }),
        lies_below(support_path(layout, ordinal), layout.policy->anchor),
        lies_below(layout.root, support_path(layout, ordinal)),
{
    let outer = support_path(layout, ordinal);
    let anchor = layout.policy->anchor;
    let inner = if ordinal + 1 < support_count(layout) {
        support_path(layout, ordinal + 1)
    } else {
        layout.root
    };
    assert(inner.components =~= outer.components.push(inner.components.last()));
    assert(outer.components.take(anchor.components.len() as int) =~= anchor.components) by {
        assert(layout.root.components.take(anchor.components.len() as int) == anchor.components);
    }
    assert(layout.root.components.take(outer.components.len() as int) =~= outer.components);
}

/// A layout for a root, with an anchor or with a parent that must exist.
pub fn worker_directory_layout_for_test(
    scope: InstallationScope,
    principal: WorkerPrincipal,
    root: WorkerPath,
    creation_anchor: Option<WorkerPath>,
) -> (layout: WorkerDirectoryLayout)
    ensures
        layout@ == (LayoutModel {
            scope,
            root: root@,
            policy: match creation_anchor {
                Some(anchor) => PolicyModel::CreateMissingFrom { anchor: anchor@ },
                None => PolicyModel::ExistingParent { allow_untrusted_parent_create: false },
            },
            principal: principal@,
        }),
{
    let policy = match creation_anchor {
        Some(anchor) => WorkerRootCreationPolicy::CreateMissingFrom { anchor },
        None => WorkerRootCreationPolicy::ExistingParent { allow_untrusted_parent_create: false },
    };
    WorkerDirectoryLayout::new(scope, root, policy, principal)
}

} // verus!
