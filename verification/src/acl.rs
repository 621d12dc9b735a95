//! What the access-control lists of the files and directories must be.

use crate::error;
use crate::error::{permission_denied, PlatformError};
use vstd::prelude::*;

verus! {

/// Read access to a file.
pub const FILE_READ: u32 = 0x0012_0089;

/// Execute access to a file, or traversal of a directory.
pub const FILE_EXECUTE: u32 = 0x0000_0020;

/// Every specific and standard right of a file.
pub const FILE_ALL_ACCESS: u32 = 0x001f_01ff;

/// Generic read access.
pub const GENERIC_READ: u32 = 0x8000_0000;

/// Generic write access.
pub const GENERIC_WRITE: u32 = 0x4000_0000;

/// The right to wait on an object.
pub const SYNCHRONIZE: u32 = 0x0010_0000;

/// The right to add a file to a directory.
pub const ADD_FILE: u32 = 0x0000_0002;

/// The right to add a directory to a directory.
pub const ADD_SUBDIRECTORY: u32 = 0x0000_0004;

/// The rights that let their holder replace a directory or what it holds:
/// delete-child, delete, change of access, change of owner, generic write and
/// generic all.
pub const PARENT_TAKEOVER_ACCESS: u32 = 0x0000_0040 | 0x0001_0000 | 0x0004_0000 | 0x0008_0000
    | 0x4000_0000 | 0x1000_0000;

/// The rights that let their holder change a file.
pub const FILE_MUTATION_ACCESS: u32 = 0x0000_0002 | 0x0000_0004 | 0x0000_0010 | 0x0000_0100
    | 0x0001_0000 | 0x0004_0000 | 0x0008_0000 | 0x4000_0000 | 0x1000_0000;

/// Inheritance by files.
pub const OBJECT_INHERIT_ACE: u8 = 0x01;

/// Inheritance by directories.
pub const CONTAINER_INHERIT_ACE: u8 = 0x02;

/// Inheritance by both.
pub const INHERITED_FLAGS: u8 = 0x03;

/// An entry that does not apply to the object that carries it.
pub const INHERIT_ONLY_ACE: u8 = 0x08;

/// The kind of an entry that grants.
pub const ACCESS_ALLOWED_ACE_TYPE: u8 = 0;

/// The kind of an entry that denies.
pub const ACCESS_DENIED_ACE_TYPE: u8 = 1;

/// The control flag of a list that inherits nothing.
pub const SE_DACL_PROTECTED: u16 = 0x1000;

/// What a list protects.
#[derive(Clone, Copy, Debug, PartialEq, Eq, Structural)]
pub enum AclKind {
    Manifest,
    Directory,
    Lock,
    Staging,
    UserFile,
    UserDirectory,
}

/// Whom an entry concerns.
#[derive(Clone, Copy, Debug, PartialEq, Eq, Structural)]
pub enum Principal {
    System,
    Administrators,
    TrustedInstaller,
    Worker,
    Unexpected,
}

/// Who owns a directory above a user's state.
#[derive(Clone, Copy, Debug, PartialEq, Eq, Structural)]
pub enum UserAncestorOwner {
    User,
    TrustedSystem,
    Unexpected,
}

/// One entry of a list.
#[derive(Clone, Copy, Debug, PartialEq, Eq, Structural)]
pub struct AceInspection {
    pub principal: Principal,
    pub mask: u32,
    pub flags: u8,
    pub allowed: bool,
}

/// A list, and what is known of the object that carries it.
#[derive(Debug)]
pub struct AclInspection {
    pub owner_matches_policy: bool,
    pub dacl_is_protected: bool,
    pub entries: Vec<AceInspection>,
}

// ---------------------------------------------------------------------------
// Exact lists
// ---------------------------------------------------------------------------

/// An entry that grants `mask` to `principal`.
pub open spec fn grant(principal: Principal, mask: u32, flags: u8) -> AceInspection {
    AceInspection { principal, mask, flags, allowed: true }
}

/// How the entries of a list of this kind are inherited.
pub open spec fn inheritance(kind: AclKind) -> u8 {
    match kind {
        AclKind::Directory | AclKind::UserDirectory => INHERITED_FLAGS,
        _ => 0,
    }
}

/// The entries of a list of this kind.
pub open spec fn expected_entries(kind: AclKind) -> Seq<AceInspection> {
    let flags = inheritance(kind);
    let management = seq![
        grant(Principal::System, FILE_ALL_ACCESS, flags),
        grant(Principal::Administrators, FILE_ALL_ACCESS, flags),
    ];
    match kind {
        AclKind::Manifest => management.push(grant(Principal::Worker, FILE_READ, 0)),
        AclKind::Directory => management.push(
            grant(Principal::Worker, FILE_READ | FILE_EXECUTE, flags),
        ),
        AclKind::UserFile | AclKind::UserDirectory => management.push(
            grant(Principal::Worker, FILE_ALL_ACCESS, flags),
        ),
        AclKind::Lock | AclKind::Staging => management,
    }
}

/// The entries of a worker directory.
pub open spec fn expected_creation_entries(owner_is_management: bool) -> Seq<AceInspection> {
    let management = seq![
        grant(Principal::System, FILE_ALL_ACCESS, INHERITED_FLAGS),
        grant(Principal::Administrators, FILE_ALL_ACCESS, INHERITED_FLAGS),
    ];
    if owner_is_management {
        management
    } else {
        management.push(grant(Principal::Worker, FILE_ALL_ACCESS, INHERITED_FLAGS))
    }
}

/// Whether a list holds exactly the expected entries, in any order.
pub open spec fn holds_exactly(entries: Seq<AceInspection>, expected: Seq<AceInspection>) -> bool {
    &&& entries.len() == expected.len()
    &&& forall|i: int| 0 <= i < expected.len() ==> entries.contains(#[trigger] expected[i])
}

fn holds_entry(entries: &[AceInspection], entry: AceInspection) -> (found: bool)
    ensures
        found == entries@.contains(entry),
{
    for i in 0..entries.len()
        invariant
            forall|j: int| 0 <= j < i ==> entries@[j] != entry,
    {
        if entries[i] == entry {
            return true;
        }
    }
    false
}

fn list_holds_exactly(entries: &[AceInspection], expected: &[AceInspection]) -> (exact: bool)
    ensures
        exact == holds_exactly(entries@, expected@),
{
    if entries.len() != expected.len() {
        return false;
    }
    for i in 0..expected.len()
        invariant
            forall|j: int| 0 <= j < i ==> entries@.contains(#[trigger] expected@[j]),
    {
        if !holds_entry(entries, expected[i]) {
            return false;
        }
    }
    true
}

fn granting(principal: Principal, mask: u32, flags: u8) -> (entry: AceInspection)
    ensures
        entry == grant(principal, mask, flags),
{
    AceInspection { principal, mask, flags, allowed: true }
}

/// The verdict on a list of this kind: the owner first, then the protection
/// from inherited entries, then the entries.
pub open spec fn acl_verdict(
    owner_matches_policy: bool,
    dacl_is_protected: bool,
    entries: Seq<AceInspection>,
    kind: AclKind,
) -> Result<(), PlatformError> {
    if !owner_matches_policy {
        Err(error::denied("store ACL owner does not match the selected scope"))
    } else if !dacl_is_protected {
        Err(error::denied("manifest DACL must be protected from inherited grants"))
    } else if !holds_exactly(entries, expected_entries(kind)) {
        Err(error::denied("manifest DACL does not match the exact principal and rights contract"))
    } else {
        Ok(())
    }
}

/// Checks a list of this kind.
pub fn validate_acl_contract(inspection: &AclInspection, kind: AclKind) -> (result: Result<
    (),
    PlatformError,
>)
    ensures
        result == acl_verdict(
            inspection.owner_matches_policy,
            inspection.dacl_is_protected,
            inspection.entries@,
            kind,
        ),
{
    if !inspection.owner_matches_policy {
        return Err(permission_denied("store ACL owner does not match the selected scope"));
    }
    if !inspection.dacl_is_protected {
        return Err(permission_denied("manifest DACL must be protected from inherited grants"));
    }
    let flags: u8 = match kind {
        AclKind::Directory | AclKind::UserDirectory => INHERITED_FLAGS,
        _ => 0,
    };
    let mut expected: Vec<AceInspection> = Vec::new();
    expected.push(granting(Principal::System, FILE_ALL_ACCESS, flags));
    expected.push(granting(Principal::Administrators, FILE_ALL_ACCESS, flags));
    match kind {
        AclKind::Manifest => {
            expected.push(granting(Principal::Worker, FILE_READ, 0));
        },
        AclKind::Directory => {
            expected.push(granting(Principal::Worker, FILE_READ | FILE_EXECUTE, flags));
        },
        AclKind::UserFile | AclKind::UserDirectory => {
            expected.push(granting(Principal::Worker, FILE_ALL_ACCESS, flags));
        },
        AclKind::Lock | AclKind::Staging => {},
    }
    assert(expected@ =~= expected_entries(kind));
    if !list_holds_exactly(&inspection.entries, &expected) {
        return Err(
            permission_denied(
                "manifest DACL does not match the exact principal and rights contract",
            ),
        );
    }
    Ok(())
}

/// The verdict on the list of a worker directory.
pub open spec fn creation_acl_verdict(
    owner_matches_policy: bool,
    dacl_is_protected: bool,
    entries: Seq<AceInspection>,
    owner_is_management: bool,
) -> Result<(), PlatformError> {
    if !owner_matches_policy || !dacl_is_protected {
        Err(error::denied("new worker directory owner or DACL protection is invalid"))
    } else if !holds_exactly(entries, expected_creation_entries(owner_is_management)) {
        Err(error::denied("new worker directory DACL grants unexpected principals or access masks"))
    } else {
        Ok(())
    }
}

/// Checks the list of a worker directory.
pub fn validate_worker_creation_acl(
    inspection: &AclInspection,
    owner_is_management: bool,
) -> (result: Result<(), PlatformError>)
    ensures
        result == creation_acl_verdict(
            inspection.owner_matches_policy,
            inspection.dacl_is_protected,
            inspection.entries@,
            owner_is_management,
        ),
{
    if !inspection.owner_matches_policy || !inspection.dacl_is_protected {
        return Err(permission_denied("new worker directory owner or DACL protection is invalid"));
    }
    let mut expected: Vec<AceInspection> = Vec::new();
    expected.push(granting(Principal::System, FILE_ALL_ACCESS, INHERITED_FLAGS));
    expected.push(granting(Principal::Administrators, FILE_ALL_ACCESS, INHERITED_FLAGS));
    if !owner_is_management {
        expected.push(granting(Principal::Worker, FILE_ALL_ACCESS, INHERITED_FLAGS));
    }
    assert(expected@ =~= expected_creation_entries(owner_is_management));
    if !list_holds_exactly(&inspection.entries, &expected) {
        return Err(
            permission_denied(
                "new worker directory DACL grants unexpected principals or access masks",
            ),
        );
    }
    Ok(())
}

/// An accepted list holds nothing but the expected entries.
pub proof fn exact_lists_hold_nothing_else(entries: Seq<AceInspection>, kind: AclKind, i: int)
    requires
        holds_exactly(entries, expected_entries(kind)),
        0 <= i < entries.len(),
    ensures
        expected_entries(kind).contains(entries[i]),
{
    let expected = expected_entries(kind);
    let first = choose|j: int| 0 <= j < entries.len() && entries[j] == expected[0];
    let second = choose|j: int| 0 <= j < entries.len() && entries[j] == expected[1];
    assert(entries.contains(expected[0]));
    assert(entries.contains(expected[1]));
    assert(first != second);
    if expected.len() == 3 {
        let third = choose|j: int| 0 <= j < entries.len() && entries[j] == expected[2];
        assert(entries.contains(expected[2]));
        assert(third != first && third != second);
        assert(i == first || i == second || i == third);
    } else {
        assert(i == first || i == second);
    }
}

/// An accepted list of a manifest lets the worker read and nothing more.
pub proof fn manifest_worker_is_read_only(entries: Seq<AceInspection>, i: int)
    requires
        holds_exactly(entries, expected_entries(AclKind::Manifest)),
        0 <= i < entries.len(),
        entries[i].principal == Principal::Worker,
    ensures
        entries[i].mask == FILE_READ,
{
    exact_lists_hold_nothing_else(entries, AclKind::Manifest, i);
}

// ---------------------------------------------------------------------------
// Lists that must not grant too much
// ---------------------------------------------------------------------------

/// The principals that the operating system itself acts as.
pub open spec fn is_system_principal(principal: Principal) -> bool {
    principal == Principal::System || principal == Principal::Administrators || principal
        == Principal::TrustedInstaller
}

/// Whether an entry grants any of `rights` on the object that carries it.
pub open spec fn grants_here(entry: AceInspection, rights: u32) -> bool {
    entry.allowed && entry.flags & INHERIT_ONLY_ACE == 0 && entry.mask & rights != 0
}

/// Whether an entry lets someone other than the system take `rights`.
pub open spec fn exceeds(entry: AceInspection, rights: u32) -> bool {
    !is_system_principal(entry.principal) && grants_here(entry, rights)
}

/// Whether an entry lets someone other than the system and the worker take
/// `rights`.
pub open spec fn exceeds_worker(entry: AceInspection, rights: u32) -> bool {
    entry.principal != Principal::Worker && exceeds(entry, rights)
}

fn system_principal(principal: Principal) -> (holds: bool)
    ensures
        holds == is_system_principal(principal),
{
    match principal {
        Principal::System | Principal::Administrators | Principal::TrustedInstaller => true,
        Principal::Worker | Principal::Unexpected => false,
    }
}

fn entry_exceeds(entry: AceInspection, rights: u32) -> (holds: bool)
    ensures
        holds == exceeds(entry, rights),
{
    !system_principal(entry.principal) && entry.allowed && entry.flags & INHERIT_ONLY_ACE == 0
        && entry.mask & rights != 0
}

/// Whether some entry lets someone other than the system take `rights`.
pub open spec fn any_exceeds(entries: Seq<AceInspection>, rights: u32) -> bool {
    exists|i: int| 0 <= i < entries.len() && exceeds(#[trigger] entries[i], rights)
}

/// Whether some entry lets someone other than the system and the worker take
/// `rights`.
pub open spec fn any_exceeds_worker(entries: Seq<AceInspection>, rights: u32) -> bool {
    exists|i: int| 0 <= i < entries.len() && exceeds_worker(#[trigger] entries[i], rights)
}

fn list_exceeds(entries: &[AceInspection], rights: u32) -> (found: bool)
    ensures
        found == any_exceeds(entries@, rights),
{
    for i in 0..entries.len()
        invariant
            forall|j: int| 0 <= j < i ==> !exceeds(#[trigger] entries@[j], rights),
    {
        if entry_exceeds(entries[i], rights) {
            return true;
        }
    }
    false
}

fn list_exceeds_worker(entries: &[AceInspection], rights: u32) -> (found: bool)
    ensures
        found == any_exceeds_worker(entries@, rights),
{
    for i in 0..entries.len()
        invariant
            forall|j: int| 0 <= j < i ==> !exceeds_worker(#[trigger] entries@[j], rights),
    {
        if entries[i].principal != Principal::Worker && entry_exceeds(entries[i], rights) {
            return true;
        }
    }
    false
}

/// The verdict on the list of the executable that authorization runs.
pub open spec fn authorization_executable_verdict(
    trusted_owner: bool,
    entries: Seq<AceInspection>,
) -> Result<(), PlatformError> {
    if !trusted_owner {
        Err(
            error::denied(
                "setup authorization executable is not owned by a trusted system principal",
            ),
        )
    } else if any_exceeds(entries, FILE_MUTATION_ACCESS) {
        Err(error::denied("setup authorization executable is writable by an untrusted principal"))
    } else {
        Ok(())
    }
}

/// Checks the list of the executable that authorization runs: only the system
/// may change it.
pub fn validate_authorization_executable_acl(
    trusted_owner: bool,
    entries: &[AceInspection],
) -> (result: Result<(), PlatformError>)
    ensures
        result == authorization_executable_verdict(trusted_owner, entries@),
{
    if !trusted_owner {
        return Err(
            permission_denied(
                "setup authorization executable is not owned by a trusted system principal",
            ),
        );
    }
    if list_exceeds(entries, FILE_MUTATION_ACCESS) {
        return Err(
            permission_denied(
                "setup authorization executable is writable by an untrusted principal",
            ),
        );
    }
    Ok(())
}

/// The verdict on the list of a directory above that executable.
pub open spec fn authorization_ancestor_verdict(
    trusted_owner: bool,
    entries: Seq<AceInspection>,
) -> Result<(), PlatformError> {
    if !trusted_owner {
        Err(error::denied("setup authorization executable has an untrusted ancestor owner"))
    } else if any_exceeds(entries, PARENT_TAKEOVER_ACCESS) {
        Err(error::denied("setup authorization executable has a replaceable ancestor"))
    } else {
        Ok(())
    }
}

/// Checks the list of a directory above the executable that authorization
/// runs: only the system may replace it.
pub fn validate_authorization_ancestor_acl(
    trusted_owner: bool,
    entries: &[AceInspection],
) -> (result: Result<(), PlatformError>)
    ensures
        result == authorization_ancestor_verdict(trusted_owner, entries@),
{
    if !trusted_owner {
        return Err(
            permission_denied("setup authorization executable has an untrusted ancestor owner"),
        );
    }
    if list_exceeds(entries, PARENT_TAKEOVER_ACCESS) {
        return Err(permission_denied("setup authorization executable has a replaceable ancestor"));
    }
    Ok(())
}

/// The verdict on the list of a directory above a manifest.
pub open spec fn ancestor_verdict(worker_is_owner: bool, entries: Seq<AceInspection>) -> Result<
    (),
    PlatformError,
> {
    if worker_is_owner {
        Err(error::denied("configured worker owns a manifest ancestor"))
    } else if any_exceeds(entries, PARENT_TAKEOVER_ACCESS) {
        Err(error::denied("manifest ancestor grants delete-child or ACL takeover access"))
    } else {
        Ok(())
    }
}

/// Checks the list of a directory above a manifest: the worker neither owns
/// nor can replace it.
pub fn validate_ancestor_entries(
    worker_is_owner: bool,
    entries: &[AceInspection],
) -> (result: Result<(), PlatformError>)
    ensures
        result == ancestor_verdict(worker_is_owner, entries@),
{
    if worker_is_owner {
        return Err(permission_denied("configured worker owns a manifest ancestor"));
    }
    if list_exceeds(entries, PARENT_TAKEOVER_ACCESS) {
        return Err(
            permission_denied("manifest ancestor grants delete-child or ACL takeover access"),
        );
    }
    Ok(())
}

/// The verdict on the list of a directory above a user's state.
pub open spec fn user_ancestor_verdict(
    owner: UserAncestorOwner,
    entries: Seq<AceInspection>,
) -> Result<(), PlatformError> {
    if owner == UserAncestorOwner::Unexpected {
        Err(error::denied("user state ancestor has an unrelated owner"))
    } else if any_exceeds_worker(entries, PARENT_TAKEOVER_ACCESS) {
        Err(error::denied("user state ancestor grants another principal takeover access"))
    } else {
        Ok(())
    }
}

/// Checks the list of a directory above a user's state: nobody but the system
/// and the user can replace it.
pub fn validate_user_ancestor_entries(
    owner: UserAncestorOwner,
    entries: &[AceInspection],
) -> (result: Result<(), PlatformError>)
    ensures
        result == user_ancestor_verdict(owner, entries@),
{
    if owner == UserAncestorOwner::Unexpected {
        return Err(permission_denied("user state ancestor has an unrelated owner"));
    }
    if list_exceeds_worker(entries, PARENT_TAKEOVER_ACCESS) {
        return Err(
            permission_denied("user state ancestor grants another principal takeover access"),
        );
    }
    Ok(())
}

/// Whether an entry lets someone other than the system and the worker replace
/// a directory above a worker root, or add to it what they may not.
pub open spec fn untrusted_writer(entry: AceInspection, allow_create_child: bool) -> bool {
    ||| exceeds_worker(entry, PARENT_TAKEOVER_ACCESS | ADD_FILE)
    ||| exceeds_worker(entry, ADD_SUBDIRECTORY) && !allow_create_child
}

/// The verdict on the list of a directory above a worker root.
pub open spec fn worker_ancestor_verdict(
    owner_is_trusted: bool,
    entries: Seq<AceInspection>,
    allow_create_child: bool,
) -> Result<(), PlatformError> {
    if !owner_is_trusted {
        Err(error::denied("system worker root ancestor is owned by an untrusted principal"))
    } else if exists|i: int|
        0 <= i < entries.len() && untrusted_writer(#[trigger] entries[i], allow_create_child) {
        Err(error::denied("system worker root ancestor is writable by an untrusted principal"))
    } else {
        Ok(())
    }
}

/// Checks the list of a directory above a worker root.
pub fn validate_worker_ancestor_acl(
    owner_is_trusted: bool,
    entries: &[AceInspection],
    allow_untrusted_create_child: bool,
) -> (result: Result<(), PlatformError>)
    ensures
        result == worker_ancestor_verdict(owner_is_trusted, entries@, allow_untrusted_create_child),
{
    if !owner_is_trusted {
        return Err(
            permission_denied("system worker root ancestor is owned by an untrusted principal"),
        );
    }
    for i in 0..entries.len()
        invariant
            owner_is_trusted,
            forall|j: int|
                0 <= j < i ==> !untrusted_writer(
                    #[trigger] entries@[j],
                    allow_untrusted_create_child,
                ),
    {
        let entry = entries[i];
        let foreign = entry.principal != Principal::Worker;
        if foreign && (entry_exceeds(entry, PARENT_TAKEOVER_ACCESS | ADD_FILE) || (entry_exceeds(
            entry,
            ADD_SUBDIRECTORY,
        ) && !allow_untrusted_create_child)) {
            assert(untrusted_writer(entries@[i as int], allow_untrusted_create_child));
            return Err(
                permission_denied("system worker root ancestor is writable by an untrusted principal"),
            );
        }
    }
    Ok(())
}

/// Whether an entry lets a stranger change a profile, now or by inheritance.
pub open spec fn unsafe_profile_entry(entry: AceInspection) -> bool {
    entry.allowed && entry.principal == Principal::Unexpected && entry.mask & FILE_MUTATION_ACCESS
        != 0
}

/// Whether no entry of a list lets a stranger change a profile.
pub open spec fn safe_profile(entries: Seq<AceInspection>) -> bool {
    forall|i: int| 0 <= i < entries.len() ==> !unsafe_profile_entry(#[trigger] entries[i])
}

/// Whether no stranger can change a profile.
pub fn dedicated_profile_acl_is_safe(entries: &[AceInspection]) -> (safe: bool)
    ensures
        safe == safe_profile(entries@),
{
    for i in 0..entries.len()
        invariant
            forall|j: int| 0 <= j < i ==> !unsafe_profile_entry(#[trigger] entries@[j]),
    {
        let entry = entries[i];
        if entry.allowed && entry.principal == Principal::Unexpected && entry.mask
            & FILE_MUTATION_ACCESS != 0 {
            assert(unsafe_profile_entry(entries@[i as int]));
            return false;
        }
    }
    true
}

/// The verdict on one more owner, walking outwards from a user's state.
pub open spec fn owner_transition(
    owner: UserAncestorOwner,
    reached_system_owner: bool,
) -> Result<bool, PlatformError> {
    match owner {
        UserAncestorOwner::User if !reached_system_owner => Ok(false),
        UserAncestorOwner::TrustedSystem => Ok(true),
        _ => Err(
            error::denied("user state ancestor has an unrelated or invalid owner transition"),
        ),
    }
}

/// Checks one more owner, walking outwards from a user's state: the user's own
/// directories come first, and behind the first system directory only system
/// directories follow.
pub fn validate_user_ancestor_owner_transition(
    owner: UserAncestorOwner,
    reached_system_owner: &mut bool,
) -> (result: Result<(), PlatformError>)
    ensures
        match owner_transition(owner, *old(reached_system_owner)) {
            Ok(reached) => result is Ok && *final(reached_system_owner) == reached,
            Err(refusal) => {
                &&& result == Err::<(), PlatformError>(refusal)
                &&& *final(reached_system_owner) == *old(reached_system_owner)
            },
        },
{
    match owner {
        UserAncestorOwner::User => if !*reached_system_owner {
            Ok(())
        } else {
            Err(
                permission_denied(
                    "user state ancestor has an unrelated or invalid owner transition",
                ),
            )
        },
        UserAncestorOwner::TrustedSystem => {
            *reached_system_owner = true;
            Ok(())
        },
        UserAncestorOwner::Unexpected => Err(
            permission_denied("user state ancestor has an unrelated or invalid owner transition"),
        ),
    }
}

/// The verdict on the account type that a SID resolved to.
pub open spec fn sid_use_verdict(sid_name_use: i32) -> Result<(), PlatformError> {
    if sid_name_use != 1 {
        Err(error::denied("worker SID must resolve to an individual user account"))
    } else {
        Ok(())
    }
}

/// The account type of an individual user.
pub const SID_TYPE_USER: i32 = 1;

/// Checks the account type that a SID resolved to.
pub fn validate_worker_sid_name_use(sid_name_use: i32) -> (result: Result<(), PlatformError>)
    ensures
        result == sid_use_verdict(sid_name_use),
{
    if sid_name_use != SID_TYPE_USER {
        return Err(permission_denied("worker SID must resolve to an individual user account"));
    }
    Ok(())
}

// ---------------------------------------------------------------------------
// Security descriptor text
// ---------------------------------------------------------------------------

/// The security descriptor of an object of this kind.
pub open spec fn sddl(worker_sid: Seq<char>, kind: AclKind) -> Seq<char> {
    match kind {
        AclKind::Manifest => "O:BAD:P(A;;FA;;;SY)(A;;FA;;;BA)(A;;0x120089;;;"@ + worker_sid + ")"@,
        AclKind::Directory => "O:BAD:P(A;OICI;FA;;;SY)(A;OICI;FA;;;BA)(A;OICI;0x1200a9;;;"@
            + worker_sid + ")"@,
        AclKind::Lock | AclKind::Staging => "O:BAD:P(A;;FA;;;SY)(A;;FA;;;BA)"@,
        AclKind::UserFile => "O:"@ + worker_sid + "D:P(A;;FA;;;SY)(A;;FA;;;BA)(A;;FA;;;"@
            + worker_sid + ")"@,
        AclKind::UserDirectory => "O:"@ + worker_sid
            + "D:P(A;OICI;FA;;;SY)(A;OICI;FA;;;BA)(A;OICI;FA;;;"@ + worker_sid + ")"@,
    }
}

/// The security descriptor of an object of this kind.
pub fn acl_sddl(worker_sid: &str, kind: AclKind) -> (descriptor: String)
    ensures
        descriptor@ == sddl(worker_sid@, kind),
{
    match kind {
        AclKind::Manifest => "O:BAD:P(A;;FA;;;SY)(A;;FA;;;BA)(A;;0x120089;;;".to_owned().concat(
            worker_sid,
        ).concat(")"),
        AclKind::Directory => "O:BAD:P(A;OICI;FA;;;SY)(A;OICI;FA;;;BA)(A;OICI;0x1200a9;;;".to_owned().concat(
            worker_sid,
        ).concat(")"),
        AclKind::Lock | AclKind::Staging => "O:BAD:P(A;;FA;;;SY)(A;;FA;;;BA)".to_owned(),
        AclKind::UserFile => "O:".to_owned().concat(worker_sid).concat(
            "D:P(A;;FA;;;SY)(A;;FA;;;BA)(A;;FA;;;",
        ).concat(worker_sid).concat(")"),
        AclKind::UserDirectory => "O:".to_owned().concat(worker_sid).concat(
            "D:P(A;OICI;FA;;;SY)(A;OICI;FA;;;BA)(A;OICI;FA;;;",
        ).concat(worker_sid).concat(")"),
    }
}

/// The descriptor of a lock or of a staging directory concerns no worker.
pub proof fn private_descriptors_name_no_worker(left: Seq<char>, right: Seq<char>)
    ensures
        sddl(left, AclKind::Lock) == sddl(right, AclKind::Lock),
        sddl(left, AclKind::Staging) == sddl(right, AclKind::Staging),
{
}

/// Different workers have different manifest descriptors.
pub proof fn manifest_descriptor_names_its_worker(left: Seq<char>, right: Seq<char>)
    requires
        sddl(left, AclKind::Manifest) == sddl(right, AclKind::Manifest),
    ensures
        left == right,
{
    let head = "O:BAD:P(A;;FA;;;SY)(A;;FA;;;BA)(A;;0x120089;;;"@;
    let tail = ")"@;
    let a = head + left + tail;
    let b = head + right + tail;
    assert(a.len() == b.len());
    assert(left =~= a.subrange(head.len() as int, (head.len() + left.len()) as int));
    assert(right =~= b.subrange(head.len() as int, (head.len() + right.len()) as int));
}

/// The security descriptor of a worker directory: the owner, and full access
/// for the system, the administrators and an owner who is neither.
pub open spec fn worker_directory_sddl(owner: Seq<char>, owner_is_management: bool) -> Seq<char> {
    if owner_is_management {
        "O:"@ + owner + "D:P(A;OICI;FA;;;SY)(A;OICI;FA;;;BA)"@
    } else {
        sddl(owner, AclKind::UserDirectory)
    }
}

/// The security descriptor of a worker directory.
pub fn worker_creation_sddl(owner: &str, owner_is_management: bool) -> (descriptor: String)
    ensures
        descriptor@ == worker_directory_sddl(owner@, owner_is_management),
{
    if owner_is_management {
        "O:".to_owned().concat(owner).concat("D:P(A;OICI;FA;;;SY)(A;OICI;FA;;;BA)")
    } else {
        acl_sddl(owner, AclKind::UserDirectory)
    }
}

} // verus!
