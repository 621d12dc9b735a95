//! What the checks of access rules come to, in terms of what the system reports
//! of an object: who owns it, whether its list inherits, and what each entry of
//! the list grants to whom.

use crate::acl;
use crate::acl::{
    acl_sddl, dedicated_profile_acl_is_safe, validate_acl_contract, validate_ancestor_entries,
    validate_authorization_ancestor_acl, validate_authorization_executable_acl,
    validate_user_ancestor_entries, validate_user_ancestor_owner_transition,
    validate_worker_ancestor_acl, validate_worker_creation_acl, validate_worker_sid_name_use, worker_creation_sddl, AceInspection, AclInspection, AclKind,
    Principal, UserAncestorOwner,
};
use crate::descriptor;
use crate::descriptor::{
    inspect_aces, inspect_ancestor_acl, inspect_authorization_ancestor_acl,
    inspect_authorization_executable_acl, inspect_security_descriptor, inspect_user_ancestor_acl,
    path_is_reparse_point, require_kind, verify_trusted_worker_ancestor,
    verify_worker_directory_security, PathFacts, RawAce, SecurityFacts, SidRoles,
};
use crate::error::{ErrorKind, PlatformError};
use vstd::prelude::*;

verus! {

// ---------------------------------------------------------------------------
// Entries
// ---------------------------------------------------------------------------

/// The numbers behind the names of rights.
pub proof fn rights_have_their_numbers()
    ensures
        acl::PARENT_TAKEOVER_ACCESS == 0x500d_0040u32,
        acl::FILE_MUTATION_ACCESS == 0x500d_0116u32,
        acl::FILE_READ | acl::FILE_EXECUTE == 0x0012_00a9u32,
        acl::PARENT_TAKEOVER_ACCESS | acl::ADD_FILE == 0x500d_0042u32,
{
    assert(0x0000_0040u32 | 0x0001_0000 | 0x0004_0000 | 0x0008_0000 | 0x4000_0000 | 0x1000_0000
        == 0x500d_0040u32) by (bit_vector);
    assert(0x0000_0002u32 | 0x0000_0004 | 0x0000_0010 | 0x0000_0100 | 0x0001_0000 | 0x0004_0000
        | 0x0008_0000 | 0x4000_0000 | 0x1000_0000 == 0x500d_0116u32) by (bit_vector);
    assert(0x0012_0089u32 | 0x0000_0020u32 == 0x0012_00a9u32) by (bit_vector);
    assert(0x500d_0040u32 | 0x0000_0002u32 == 0x500d_0042u32) by (bit_vector);
}

/// Whether an entry, as the system reports it, gives one of `rights` on the very
/// object that carries it to someone who may not have it. The system itself may
/// have anything, and the worker where `worker_may`. What an entry of an unknown
/// kind does is not known, so it counts.
pub open spec fn open_to_strangers(entry: RawAce, rights: u32, worker_may: bool) -> bool {
    &&& entry.flags & 0x08 == 0
    &&& entry.kind != 1
    &&& entry.kind == 0 ==> {
        &&& entry.mask & rights != 0
        &&& !entry.sid.system && !entry.sid.administrators && !entry.sid.trusted_installer
        &&& !(worker_may && entry.sid.worker)
    }
}

/// Whether a list gives nothing of `rights` to a stranger.
pub open spec fn closed_to_strangers(
    entries: Seq<RawAce>,
    rights: u32,
    worker_may: bool,
) -> bool {
    forall|i: int|
        0 <= i < entries.len() ==> !open_to_strangers(#[trigger] entries[i], rights, worker_may)
}

/// Whether the system told everything of an object's owner and list.
pub open spec fn told(facts: SecurityFacts) -> bool {
    &&& facts.query is Ok
    &&& facts.has_owner
    &&& facts.has_dacl
    &&& facts.identity_failure is None
    &&& facts.entries is Ok
}

/// A refusal by a rule, which says nothing of the system's failures.
pub open spec fn refused_by_rule<T>(result: Result<T, PlatformError>) -> bool {
    result matches Err(PlatformError::Policy { kind: ErrorKind::PermissionDenied, .. })
}

/// Whether a failed check says why: the failure that the system reported, the
/// earliest where there are several, or that a rule refused.
pub open spec fn says_why<T>(facts: SecurityFacts, result: Result<T, PlatformError>) -> bool {
    match facts.query {
        Err(failure) => result == Err::<T, _>(failure),
        Ok(()) => if !facts.has_owner || !facts.has_dacl {
            refused_by_rule(result)
        } else if facts.identity_failure is Some {
            result == Err::<T, _>(facts.identity_failure->0)
        } else {
            match facts.entries {
                Err(failure) => result is Err,
                Ok(_) => result is Err ==> refused_by_rule(result) || facts.control is Err,
            }
        },
    }
}

/// Whether a reported entry grants exactly `mask`, inherited as `flags` say, to
/// the principal that `is` picks.
pub open spec fn grants_exactly(
    entry: RawAce,
    mask: u32,
    flags: u8,
    is: spec_fn(SidRoles) -> bool,
) -> bool {
    entry.kind == 0 && entry.mask == mask && entry.flags == flags && is(entry.sid)
}

/// Whether a list has such an entry.
pub open spec fn has_grant(
    entries: Seq<RawAce>,
    mask: u32,
    flags: u8,
    is: spec_fn(SidRoles) -> bool,
) -> bool {
    exists|i: int|
        0 <= i < entries.len() && grants_exactly(#[trigger] entries[i], mask, flags, is)
}

/// The system itself.
pub open spec fn the_system() -> spec_fn(SidRoles) -> bool {
    |sid: SidRoles| sid.system
}

/// The administrators.
pub open spec fn the_administrators() -> spec_fn(SidRoles) -> bool {
    |sid: SidRoles| sid.administrators && !sid.system
}

/// The worker, where it is neither.
pub open spec fn the_worker() -> spec_fn(SidRoles) -> bool {
    |sid: SidRoles| sid.worker && !sid.administrators && !sid.system
}

/// What the worker may do with an object of a kind, where the object's list names
/// the worker at all.
pub open spec fn worker_rights(kind: AclKind) -> Option<u32> {
    match kind {
        AclKind::Manifest => Some(0x0012_0089),
        AclKind::Directory => Some(0x0012_00a9),
        AclKind::UserFile => Some(0x001f_01ff),
        AclKind::UserDirectory => Some(0x001f_01ff),
        AclKind::Lock => None,
        AclKind::Staging => None,
    }
}

/// How entries of an object of a kind are inherited: those of directories by
/// files and directories, others not at all.
pub open spec fn passed_on(kind: AclKind) -> u8 {
    if kind == AclKind::Directory || kind == AclKind::UserDirectory {
        3
    } else {
        0
    }
}

/// Whether a list grants everything to the system and to the administrators,
/// `worker` to the worker, and nothing else to anyone.
pub open spec fn is_exact_list(entries: Seq<RawAce>, flags: u8, worker: Option<u32>) -> bool {
    &&& entries.len() == if worker is Some {
        3int
    } else {
        2int
    }
    &&& has_grant(entries, 0x001f_01ff, flags, the_system())
    &&& has_grant(entries, 0x001f_01ff, flags, the_administrators())
    &&& worker is Some ==> has_grant(entries, worker->0, flags, the_worker())
}

// ---------------------------------------------------------------------------
// Lists that must not grant too much
// ---------------------------------------------------------------------------

pub(crate) proof fn lemma_trusted_ancestor(
    facts: &SecurityFacts,
    allow_create: bool,
    result: Result<(), PlatformError>,
)
    requires
        result == descriptor::trusted_ancestor_verdict(*facts, allow_create),
    ensures
        result is Ok <==> {
            &&& told(*facts)
            &&& facts.owner.worker || facts.owner.system || facts.owner.administrators
                || facts.owner.trusted_installer
            &&& closed_to_strangers(
                facts.entries->Ok_0@,
                if allow_create {
                    0x500d_0042u32
                } else {
                    0x500d_0046u32
                },
                true,
            )
        },
        says_why(*facts, result),
{
    rights_have_their_numbers();
    if let Ok(entries) = facts.entries {
        let read = descriptor::read_entries(entries@, true);
        assert forall|i: int| 0 <= i < entries@.len() implies acl::untrusted_writer(
            #[trigger] read[i],
            allow_create,
        ) == open_to_strangers(
            entries@[i],
            if allow_create {
                0x500d_0042u32
            } else {
                0x500d_0046u32
            },
            true,
        ) by {
            let mask = entries@[i].mask;
            assert(mask & 0x500d_0046u32 != 0 <==> (mask & 0x500d_0042u32 != 0 || mask & 0x4u32
                != 0)) by (bit_vector);
            assert(0x500d_0040u32 & 0x500d_0042u32 != 0) by (bit_vector);
        }
        if closed_to_strangers(
            entries@,
            if allow_create {
                0x500d_0042u32
            } else {
                0x500d_0046u32
            },
            true,
        ) {
            assert forall|i: int| 0 <= i < read.len() implies !acl::untrusted_writer(
                #[trigger] read[i],
                allow_create,
            ) by {
                assert(!open_to_strangers(
                    entries@[i],
                    if allow_create {
                        0x500d_0042u32
                    } else {
                        0x500d_0046u32
                    },
                    true,
                ));
            }
        } else {
            let i = choose|i: int|
                0 <= i < entries@.len() && open_to_strangers(
                    #[trigger] entries@[i],
                    if allow_create {
                        0x500d_0042u32
                    } else {
                        0x500d_0046u32
                    },
                    true,
                );
            assert(acl::untrusted_writer(read[i], allow_create));
        }
    }
}

/// A directory above a worker root is accepted exactly where the system told
/// everything of it, the worker or the system owns it, and no stranger can replace
/// it or add to it; where others may make directories in it, that much is allowed.
/// Whether its list inherits does not matter, nor what else it grants.
pub proof fn directories_above_a_root_need_only_be_safe(
    facts: &SecurityFacts,
    allow_create: bool,
    result: Result<(), PlatformError>,
)
    requires
        call_ensures(verify_trusted_worker_ancestor, (facts, allow_create), result),
    ensures
        result is Ok <==> {
            &&& told(*facts)
            &&& facts.owner.worker || facts.owner.system || facts.owner.administrators
                || facts.owner.trusted_installer
            &&& closed_to_strangers(
                facts.entries->Ok_0@,
                if allow_create {
                    0x500d_0042u32
                } else {
                    0x500d_0046u32
                },
                true,
            )
        },
        says_why(*facts, result),
{
    lemma_trusted_ancestor(facts, allow_create, result);
}

proof fn lemma_strangers(entries: Seq<RawAce>, rights: u32)
    requires
        0x500d_0040u32 & rights != 0,
    ensures
        acl::any_exceeds(descriptor::read_entries(entries, true), rights)
            == !closed_to_strangers(entries, rights, false),
        acl::any_exceeds_worker(descriptor::read_entries(entries, true), rights)
            == !closed_to_strangers(entries, rights, true),
{
    rights_have_their_numbers();
    let read = descriptor::read_entries(entries, true);
    assert forall|i: int| 0 <= i < entries.len() implies acl::exceeds(#[trigger] read[i], rights)
        == open_to_strangers(entries[i], rights, false) && acl::exceeds_worker(read[i], rights)
        == open_to_strangers(entries[i], rights, true) by {}
    if closed_to_strangers(entries, rights, false) {
        assert forall|i: int| 0 <= i < read.len() implies !acl::exceeds(
            #[trigger] read[i],
            rights,
        ) by {
            assert(!open_to_strangers(entries[i], rights, false));
        }
    } else {
        let i = choose|i: int|
            0 <= i < entries.len() && open_to_strangers(#[trigger] entries[i], rights, false);
        assert(acl::exceeds(read[i], rights));
    }
    if closed_to_strangers(entries, rights, true) {
        assert forall|i: int| 0 <= i < read.len() implies !acl::exceeds_worker(
            #[trigger] read[i],
            rights,
        ) by {
            assert(!open_to_strangers(entries[i], rights, true));
        }
    } else {
        let i = choose|i: int|
            0 <= i < entries.len() && open_to_strangers(#[trigger] entries[i], rights, true);
        assert(acl::exceeds_worker(read[i], rights));
    }
}

pub(crate) proof fn lemma_manifest_ancestor(
    facts: &SecurityFacts,
    result: Result<(), PlatformError>,
)
    requires
        result == descriptor::manifest_ancestor_verdict(*facts),
    ensures
        result is Ok <==> {
            &&& told(*facts)
            &&& !facts.owner.worker
            &&& closed_to_strangers(facts.entries->Ok_0@, 0x500d_0040, false)
        },
        says_why(*facts, result),
{
    rights_have_their_numbers();
    assert(0x500d_0040u32 & 0x500d_0040u32 != 0) by (bit_vector);
    if let Ok(entries) = facts.entries {
        lemma_strangers(entries@, 0x500d_0040);
    }
}

/// A directory above a manifest is accepted exactly where everything is told of
/// it, the worker does not own it, and neither the worker nor a stranger can
/// replace it.
pub proof fn workers_cannot_replace_what_is_above_a_manifest(
    facts: &SecurityFacts,
    result: Result<(), PlatformError>,
)
    requires
        call_ensures(inspect_ancestor_acl, (facts,), result),
    ensures
        result is Ok <==> {
            &&& told(*facts)
            &&& !facts.owner.worker
            &&& closed_to_strangers(facts.entries->Ok_0@, 0x500d_0040, false)
        },
        says_why(*facts, result),
{
    lemma_manifest_ancestor(facts, result);
}

pub(crate) proof fn lemma_user_ancestor(
    facts: &SecurityFacts,
    result: Result<UserAncestorOwner, PlatformError>,
)
    requires
        result == descriptor::owner_above_user_state(*facts),
    ensures
        result is Ok <==> {
            &&& told(*facts)
            &&& facts.owner.worker || facts.owner.system || facts.owner.administrators
                || facts.owner.trusted_installer
            &&& closed_to_strangers(facts.entries->Ok_0@, 0x500d_0040, true)
        },
        result matches Ok(owner) ==> owner == if facts.owner.worker {
            UserAncestorOwner::User
        } else {
            UserAncestorOwner::TrustedSystem
        },
        says_why(*facts, result),
{
    rights_have_their_numbers();
    assert(0x500d_0040u32 & 0x500d_0040u32 != 0) by (bit_vector);
    if let Ok(entries) = facts.entries {
        lemma_strangers(entries@, 0x500d_0040);
    }
}

/// A directory above a user's state is accepted exactly where everything is told
/// of it, the user or the system owns it, and no stranger can replace it; who owns
/// it is told.
pub proof fn strangers_cannot_replace_what_is_above_user_state(
    facts: &SecurityFacts,
    result: Result<UserAncestorOwner, PlatformError>,
)
    requires
        call_ensures(inspect_user_ancestor_acl, (facts,), result),
    ensures
        result is Ok <==> {
            &&& told(*facts)
            &&& facts.owner.worker || facts.owner.system || facts.owner.administrators
                || facts.owner.trusted_installer
            &&& closed_to_strangers(facts.entries->Ok_0@, 0x500d_0040, true)
        },
        result matches Ok(owner) ==> owner == if facts.owner.worker {
            UserAncestorOwner::User
        } else {
            UserAncestorOwner::TrustedSystem
        },
        says_why(*facts, result),
{
    lemma_user_ancestor(facts, result);
}

/// The program that asks for authority is accepted exactly where everything is
/// told of it, the system owns it, and only the system can change it.
pub proof fn only_the_system_changes_what_asks_for_authority(
    facts: &SecurityFacts,
    result: Result<(), PlatformError>,
)
    requires
        call_ensures(inspect_authorization_executable_acl, (facts,), result),
    ensures
        result is Ok <==> {
            &&& told(*facts)
            &&& facts.owner.system || facts.owner.administrators || facts.owner.trusted_installer
            &&& closed_to_strangers(facts.entries->Ok_0@, 0x500d_0116, false)
        },
        says_why(*facts, result),
{
    rights_have_their_numbers();
    assert(0x500d_0040u32 & 0x500d_0116u32 != 0) by (bit_vector);
    if let Ok(entries) = facts.entries {
        lemma_strangers(entries@, 0x500d_0116);
    }
}

/// A directory above that program is accepted exactly where everything is told of
/// it, the system owns it, and only the system can replace it.
pub proof fn only_the_system_replaces_what_is_above_that(
    facts: &SecurityFacts,
    result: Result<(), PlatformError>,
)
    requires
        call_ensures(inspect_authorization_ancestor_acl, (facts,), result),
    ensures
        result is Ok <==> {
            &&& told(*facts)
            &&& facts.owner.system || facts.owner.administrators || facts.owner.trusted_installer
            &&& closed_to_strangers(facts.entries->Ok_0@, 0x500d_0040, false)
        },
        says_why(*facts, result),
{
    rights_have_their_numbers();
    assert(0x500d_0040u32 & 0x500d_0040u32 != 0) by (bit_vector);
    if let Ok(entries) = facts.entries {
        lemma_strangers(entries@, 0x500d_0040);
    }
}

// ---------------------------------------------------------------------------
// Exact lists
// ---------------------------------------------------------------------------

proof fn lemma_grant(
    entries: Seq<RawAce>,
    principal: Principal,
    mask: u32,
    flags: u8,
    is: spec_fn(SidRoles) -> bool,
)
    requires
        principal != Principal::Unexpected,
        forall|sid: SidRoles| #[trigger]
            is(sid) <==> descriptor::role(sid, false) == principal,
    ensures
        descriptor::read_entries(entries, false).contains(acl::grant(principal, mask, flags))
            == has_grant(entries, mask, flags, is),
{
    let read = descriptor::read_entries(entries, false);
    let wanted = acl::grant(principal, mask, flags);
    assert forall|i: int| 0 <= i < entries.len() implies ((#[trigger] read[i]) == wanted)
        == grants_exactly(entries[i], mask, flags, is) by {
        assert(is(entries[i].sid) <==> descriptor::role(entries[i].sid, false) == principal);
    }
    if has_grant(entries, mask, flags, is) {
        let i = choose|i: int|
            0 <= i < entries.len() && grants_exactly(#[trigger] entries[i], mask, flags, is);
        assert(read[i] == wanted);
    }
    if read.contains(wanted) {
        let i = choose|i: int| 0 <= i < read.len() && read[i] == wanted;
        assert(read[i] == wanted);
        assert(grants_exactly(entries[i], mask, flags, is));
    }
}

proof fn lemma_exact(
    entries: Seq<RawAce>,
    expected: Seq<AceInspection>,
    flags: u8,
    worker: Option<u32>,
)
    requires
        expected == (if worker is Some {
            seq![
                acl::grant(Principal::System, 0x001f_01ff, flags),
                acl::grant(Principal::Administrators, 0x001f_01ff, flags),
                acl::grant(Principal::Worker, worker->0, flags),
            ]
        } else {
            seq![
                acl::grant(Principal::System, 0x001f_01ff, flags),
                acl::grant(Principal::Administrators, 0x001f_01ff, flags),
            ]
        }),
    ensures
        acl::holds_exactly(descriptor::read_entries(entries, false), expected) == is_exact_list(
            entries,
            flags,
            worker,
        ),
{
    let read = descriptor::read_entries(entries, false);
    lemma_grant(entries, Principal::System, 0x001f_01ff, flags, the_system());
    lemma_grant(entries, Principal::Administrators, 0x001f_01ff, flags, the_administrators());
    if worker is Some {
        lemma_grant(entries, Principal::Worker, worker->0, flags, the_worker());
        assert(expected.len() == 3);
        assert(expected[2] == acl::grant(Principal::Worker, worker->0, flags));
    }
    assert(expected[0] == acl::grant(Principal::System, 0x001f_01ff, flags));
    assert(expected[1] == acl::grant(Principal::Administrators, 0x001f_01ff, flags));
    assert(is_exact_list(entries, flags, worker) ==> acl::holds_exactly(read, expected));
    if acl::holds_exactly(read, expected) {
        assert(read.contains(expected[0]));
        assert(read.contains(expected[1]));
        if worker is Some {
            assert(read.contains(expected[2]));
        }
    }
}

pub(crate) proof fn lemma_worker_directory(
    facts: &SecurityFacts,
    owner_is_management: bool,
    result: Result<(), PlatformError>,
)
    requires
        result == descriptor::worker_directory_verdict(*facts, owner_is_management),
    ensures
        result is Ok <==> {
            &&& told(*facts)
            &&& facts.control matches Ok(control) && control & 0x1000 != 0
            &&& facts.owner.worker
            &&& is_exact_list(
                facts.entries->Ok_0@,
                3,
                if owner_is_management {
                    None
                } else {
                    Some(0x001f_01ffu32)
                },
            )
        },
        says_why(*facts, result),
{
    if let Ok(entries) = facts.entries {
        let worker = if owner_is_management {
            None
        } else {
            Some(0x001f_01ffu32)
        };
        let expected = acl::expected_creation_entries(owner_is_management);
        if owner_is_management {
            assert(expected =~= seq![
                acl::grant(Principal::System, 0x001f_01ff, 3),
                acl::grant(Principal::Administrators, 0x001f_01ff, 3),
            ]);
        } else {
            assert(expected =~= seq![
                acl::grant(Principal::System, 0x001f_01ff, 3),
                acl::grant(Principal::Administrators, 0x001f_01ff, 3),
                acl::grant(Principal::Worker, 0x001f_01ff, 3),
            ]);
        }
        lemma_exact(entries@, expected, 3, worker);
    }
}

/// A worker's directory is accepted exactly where everything is told of it, the
/// worker owns it, its list inherits nothing, and the list grants everything to
/// the system, to the administrators and to the worker, and nothing else. A worker
/// who is one of the first two needs no entry of its own.
pub proof fn worker_directories_have_exactly_their_list(
    facts: &SecurityFacts,
    owner_is_management: bool,
    result: Result<(), PlatformError>,
)
    requires
        call_ensures(verify_worker_directory_security, (facts, owner_is_management), result),
    ensures
        result is Ok <==> {
            &&& told(*facts)
            &&& facts.control matches Ok(control) && control & 0x1000 != 0
            &&& facts.owner.worker
            &&& is_exact_list(
                facts.entries->Ok_0@,
                3,
                if owner_is_management {
                    None
                } else {
                    Some(0x001f_01ffu32)
                },
            )
        },
        says_why(*facts, result),
{
    lemma_worker_directory(facts, owner_is_management, result);
}

pub(crate) proof fn lemma_stored_object(
    facts: &SecurityFacts,
    kind: AclKind,
    result: Result<(), PlatformError>,
)
    requires
        result == descriptor::descriptor_verdict(*facts, kind),
    ensures
        result is Ok <==> {
            &&& told(*facts)
            &&& facts.control matches Ok(control) && control & 0x1000 != 0
            &&& if kind == AclKind::UserFile || kind == AclKind::UserDirectory {
                facts.owner.worker
            } else {
                facts.owner.administrators
            }
            &&& is_exact_list(facts.entries->Ok_0@, passed_on(kind), worker_rights(kind))
        },
        says_why(*facts, result),
{
    rights_have_their_numbers();
    if let Ok(entries) = facts.entries {
        let expected = acl::expected_entries(kind);
        let flags = passed_on(kind);
        let worker = worker_rights(kind);
        if worker is Some {
            assert(expected =~= seq![
                acl::grant(Principal::System, 0x001f_01ff, flags),
                acl::grant(Principal::Administrators, 0x001f_01ff, flags),
                acl::grant(Principal::Worker, worker->0, flags),
            ]);
        } else {
            assert(expected =~= seq![
                acl::grant(Principal::System, 0x001f_01ff, flags),
                acl::grant(Principal::Administrators, 0x001f_01ff, flags),
            ]);
        }
        lemma_exact(entries@, expected, flags, worker);
    }
}

/// An object of a store is accepted exactly where everything is told of it, its
/// owner is the user for a user's objects and the administrators for others, its
/// list inherits nothing, and the list grants everything to the system and to the
/// administrators, to the worker what an object of its kind is for, and nothing
/// else: of a store's directory, to read and to traverse.
pub proof fn stored_objects_have_exactly_their_list(
    facts: &SecurityFacts,
    kind: AclKind,
    result: Result<(), PlatformError>,
)
    requires
        call_ensures(inspect_security_descriptor, (facts, kind), result),
    ensures
        result is Ok <==> {
            &&& told(*facts)
            &&& facts.control matches Ok(control) && control & 0x1000 != 0
            &&& if kind == AclKind::UserFile || kind == AclKind::UserDirectory {
                facts.owner.worker
            } else {
                facts.owner.administrators
            }
            &&& is_exact_list(facts.entries->Ok_0@, passed_on(kind), worker_rights(kind))
        },
        says_why(*facts, result),
{
    lemma_stored_object(facts, kind, result);
}

// ---------------------------------------------------------------------------
// What is written and what is accepted
// ---------------------------------------------------------------------------

/// How an entry that grants `mask` is written, inherited by everything or by
/// nothing: everything is `FA`, other rights are a number.
pub open spec fn entry_text(principal: Seq<char>, mask: u32, inherited: bool) -> Seq<char> {
    "(A;"@ + (if inherited {
        "OICI"@
    } else {
        ""@
    }) + ";"@ + (if mask == 0x001f_01ff {
        "FA"@
    } else if mask == 0x0012_0089 {
        "0x120089"@
    } else if mask == 0x0012_00a9 {
        "0x1200a9"@
    } else {
        arbitrary()
    }) + ";;;"@ + principal + ")"@
}

/// How an owner and a list are written that inherits nothing and grants everything
/// to the system and to the administrators, and `worker` to the worker.
pub open spec fn descriptor_text(
    owner: Seq<char>,
    worker_sid: Seq<char>,
    worker: Option<u32>,
    inherited: bool,
) -> Seq<char> {
    "O:"@ + owner + "D:P"@ + entry_text("SY"@, 0x001f_01ff, inherited) + entry_text(
        "BA"@,
        0x001f_01ff,
        inherited,
    ) + (match worker {
        Some(mask) => entry_text(worker_sid, mask, inherited),
        None => ""@,
    })
}

proof fn lemma_entry_texts(sid: Seq<char>)
    ensures
        entry_text("SY"@, 0x001f_01ff, false) == "(A;;FA;;;SY)"@,
        entry_text("BA"@, 0x001f_01ff, false) == "(A;;FA;;;BA)"@,
        entry_text("SY"@, 0x001f_01ff, true) == "(A;OICI;FA;;;SY)"@,
        entry_text("BA"@, 0x001f_01ff, true) == "(A;OICI;FA;;;BA)"@,
        entry_text(sid, 0x0012_0089, false) == "(A;;0x120089;;;"@ + sid + ")"@,
        entry_text(sid, 0x0012_00a9, true) == "(A;OICI;0x1200a9;;;"@ + sid + ")"@,
        entry_text(sid, 0x001f_01ff, false) == "(A;;FA;;;"@ + sid + ")"@,
        entry_text(sid, 0x001f_01ff, true) == "(A;OICI;FA;;;"@ + sid + ")"@,
{
    reveal_strlit("(A;");
    reveal_strlit("OICI");
    reveal_strlit("");
    reveal_strlit(";");
    reveal_strlit("FA");
    reveal_strlit("0x120089");
    reveal_strlit("0x1200a9");
    reveal_strlit(";;;");
    reveal_strlit(")");
    reveal_strlit("SY");
    reveal_strlit("BA");
    reveal_strlit("(A;;FA;;;SY)");
    reveal_strlit("(A;;FA;;;BA)");
    reveal_strlit("(A;OICI;FA;;;SY)");
    reveal_strlit("(A;OICI;FA;;;BA)");
    reveal_strlit("(A;;0x120089;;;");
    reveal_strlit("(A;OICI;0x1200a9;;;");
    reveal_strlit("(A;;FA;;;");
    reveal_strlit("(A;OICI;FA;;;");
    assert(entry_text("SY"@, 0x001f_01ff, false) =~= "(A;;FA;;;SY)"@);
    assert(entry_text("BA"@, 0x001f_01ff, false) =~= "(A;;FA;;;BA)"@);
    assert(entry_text("SY"@, 0x001f_01ff, true) =~= "(A;OICI;FA;;;SY)"@);
    assert(entry_text("BA"@, 0x001f_01ff, true) =~= "(A;OICI;FA;;;BA)"@);
    assert(entry_text(sid, 0x0012_0089, false) =~= "(A;;0x120089;;;"@ + sid + ")"@);
    assert(entry_text(sid, 0x0012_00a9, true) =~= "(A;OICI;0x1200a9;;;"@ + sid + ")"@);
    assert(entry_text(sid, 0x001f_01ff, false) =~= "(A;;FA;;;"@ + sid + ")"@);
    assert(entry_text(sid, 0x001f_01ff, true) =~= "(A;OICI;FA;;;"@ + sid + ")"@);
}

pub(crate) proof fn lemma_descriptor_text(
    worker_sid: Seq<char>,
    kind: AclKind,
)
    ensures
        acl::sddl(worker_sid, kind) == descriptor_text(
            if kind == AclKind::UserFile || kind == AclKind::UserDirectory {
                worker_sid
            } else {
                "BA"@
            },
            worker_sid,
            worker_rights(kind),
            passed_on(kind) == 3,
        ),
{
    lemma_entry_texts(worker_sid);
    reveal_strlit("O:BAD:P(A;;FA;;;SY)(A;;FA;;;BA)(A;;0x120089;;;");
    reveal_strlit("O:BAD:P(A;OICI;FA;;;SY)(A;OICI;FA;;;BA)(A;OICI;0x1200a9;;;");
    reveal_strlit("O:BAD:P(A;;FA;;;SY)(A;;FA;;;BA)");
    reveal_strlit("D:P(A;;FA;;;SY)(A;;FA;;;BA)(A;;FA;;;");
    reveal_strlit("D:P(A;OICI;FA;;;SY)(A;OICI;FA;;;BA)(A;OICI;FA;;;");
    reveal_strlit("(A;;FA;;;SY)");
    reveal_strlit("(A;;FA;;;BA)");
    reveal_strlit("(A;OICI;FA;;;SY)");
    reveal_strlit("(A;OICI;FA;;;BA)");
    reveal_strlit("(A;;0x120089;;;");
    reveal_strlit("(A;OICI;0x1200a9;;;");
    reveal_strlit("(A;;FA;;;");
    reveal_strlit("(A;OICI;FA;;;");
    reveal_strlit("O:");
    reveal_strlit("BA");
    reveal_strlit("D:P");
    reveal_strlit("");
    reveal_strlit(")");
    let owner = if kind == AclKind::UserFile || kind == AclKind::UserDirectory {
        worker_sid
    } else {
        "BA"@
    };
    assert(acl::sddl(worker_sid, kind) =~= descriptor_text(
        owner,
        worker_sid,
        worker_rights(kind),
        passed_on(kind) == 3,
    ));
}

/// What is written is what is accepted: the descriptor of an object of a kind
/// writes down the very owner and list that the check of that kind accepts.
pub proof fn descriptors_write_down_what_is_accepted(
    worker_sid: &str,
    kind: AclKind,
    written: String,
)
    requires
        call_ensures(acl_sddl, (worker_sid, kind), written),
    ensures
        written@ == descriptor_text(
            if kind == AclKind::UserFile || kind == AclKind::UserDirectory {
                worker_sid@
            } else {
                "BA"@
            },
            worker_sid@,
            worker_rights(kind),
            passed_on(kind) == 3,
        ),
{
    lemma_descriptor_text(worker_sid@, kind);
}

/// What is written for a worker's directory is what is accepted of it.
pub proof fn worker_descriptors_write_down_what_is_accepted(
    owner: &str,
    owner_is_management: bool,
    written: String,
)
    requires
        call_ensures(worker_creation_sddl, (owner, owner_is_management), written),
    ensures
        written@ == descriptor_text(
            owner@,
            owner@,
            if owner_is_management {
                None
            } else {
                Some(0x001f_01ffu32)
            },
            true,
        ),
{
    lemma_entry_texts(owner@);
    reveal_strlit("D:P(A;OICI;FA;;;SY)(A;OICI;FA;;;BA)");
    reveal_strlit("D:P(A;OICI;FA;;;SY)(A;OICI;FA;;;BA)(A;OICI;FA;;;");
    reveal_strlit("(A;OICI;FA;;;SY)");
    reveal_strlit("(A;OICI;FA;;;BA)");
    reveal_strlit("(A;OICI;FA;;;");
    reveal_strlit("O:");
    reveal_strlit("D:P");
    reveal_strlit("");
    reveal_strlit(")");
    let worker = if owner_is_management {
        None
    } else {
        Some(0x001f_01ffu32)
    };
    assert(written@ =~= descriptor_text(owner@, owner@, worker, true));
}

// ---------------------------------------------------------------------------
// Entries that were told apart by principal
// ---------------------------------------------------------------------------

/// Whether a list holds an entry that grants exactly `mask` to a principal.
pub open spec fn lists_grant(
    entries: Seq<AceInspection>,
    principal: Principal,
    mask: u32,
    flags: u8,
) -> bool {
    entries.contains(AceInspection { principal, mask, flags, allowed: true })
}

/// An object's list is accepted exactly where the owner is the right one, the
/// list inherits nothing, and it holds full access for the system and for the
/// administrators, for the worker what the kind of object is for, and nothing
/// else. A directory of a store lets the worker read and traverse, by itself and
/// in everything below.
pub proof fn lists_are_accepted_as_their_kind_says(
    inspection: &AclInspection,
    kind: AclKind,
    result: Result<(), PlatformError>,
)
    requires
        call_ensures(validate_acl_contract, (inspection, kind), result),
    ensures
        result is Ok <==> {
            let entries = inspection.entries@;
            &&& inspection.owner_matches_policy
            &&& inspection.dacl_is_protected
            &&& entries.len() == if worker_rights(kind) is Some {
                3int
            } else {
                2int
            }
            &&& lists_grant(entries, Principal::System, 0x001f_01ff, passed_on(kind))
            &&& lists_grant(entries, Principal::Administrators, 0x001f_01ff, passed_on(kind))
            &&& worker_rights(kind) matches Some(mask) ==> lists_grant(
                entries,
                Principal::Worker,
                mask,
                passed_on(kind),
            )
        },
        result is Err ==> refused_by_rule(result),
{
    rights_have_their_numbers();
    let expected = acl::expected_entries(kind);
    let flags = passed_on(kind);
    let entries = inspection.entries@;
    assert(expected[0] == acl::grant(Principal::System, 0x001f_01ff, flags));
    assert(expected[1] == acl::grant(Principal::Administrators, 0x001f_01ff, flags));
    if worker_rights(kind) is Some {
        assert(expected.len() == 3);
        assert(expected[2] == acl::grant(Principal::Worker, worker_rights(kind)->0, flags));
    } else {
        assert(expected.len() == 2);
    }
    if acl::holds_exactly(entries, expected) {
        assert(entries.contains(expected[0]));
        assert(entries.contains(expected[1]));
        if worker_rights(kind) is Some {
            assert(entries.contains(expected[2]));
        }
    }
}

/// The list of a worker's directory is accepted exactly where the worker owns it,
/// it inherits nothing, and it holds full access, also for everything below, for
/// the system, for the administrators and for a worker who is neither, and
/// nothing else.
pub proof fn worker_lists_are_accepted_as_they_are_made(
    inspection: &AclInspection,
    owner_is_management: bool,
    result: Result<(), PlatformError>,
)
    requires
        call_ensures(validate_worker_creation_acl, (inspection, owner_is_management), result),
    ensures
        result is Ok <==> {
            let entries = inspection.entries@;
            &&& inspection.owner_matches_policy
            &&& inspection.dacl_is_protected
            &&& entries.len() == if owner_is_management {
                2int
            } else {
                3int
            }
            &&& lists_grant(entries, Principal::System, 0x001f_01ff, 3)
            &&& lists_grant(entries, Principal::Administrators, 0x001f_01ff, 3)
            &&& owner_is_management || lists_grant(entries, Principal::Worker, 0x001f_01ff, 3)
        },
        result is Err ==> refused_by_rule(result),
{
    let expected = acl::expected_creation_entries(owner_is_management);
    let entries = inspection.entries@;
    assert(expected[0] == acl::grant(Principal::System, 0x001f_01ff, 3));
    assert(expected[1] == acl::grant(Principal::Administrators, 0x001f_01ff, 3));
    if !owner_is_management {
        assert(expected.len() == 3);
        assert(expected[2] == acl::grant(Principal::Worker, 0x001f_01ff, 3));
    } else {
        assert(expected.len() == 2);
    }
    if acl::holds_exactly(entries, expected) {
        assert(entries.contains(expected[0]));
        assert(entries.contains(expected[1]));
        if !owner_is_management {
            assert(entries.contains(expected[2]));
        }
    }
}

/// Whether an entry gives one of `rights` on the object itself to someone other
/// than the system, and other than the worker where the worker may have it.
pub open spec fn gives_away(entry: AceInspection, rights: u32, worker_may: bool) -> bool {
    &&& entry.allowed
    &&& entry.flags & 0x08 == 0
    &&& entry.mask & rights != 0
    &&& entry.principal == Principal::Unexpected || entry.principal == Principal::Worker
        && !worker_may
}

/// Whether a list gives nothing of `rights` away.
pub open spec fn keeps_back(entries: Seq<AceInspection>, rights: u32, worker_may: bool) -> bool {
    forall|i: int|
        0 <= i < entries.len() ==> !gives_away(#[trigger] entries[i], rights, worker_may)
}

proof fn lemma_keeps_back(entries: Seq<AceInspection>, rights: u32)
    ensures
        acl::any_exceeds(entries, rights) == !keeps_back(entries, rights, false),
        acl::any_exceeds_worker(entries, rights) == !keeps_back(entries, rights, true),
{
    assert forall|i: int| 0 <= i < entries.len() implies acl::exceeds(#[trigger] entries[i], rights)
        == gives_away(entries[i], rights, false) && acl::exceeds_worker(entries[i], rights)
        == gives_away(entries[i], rights, true) by {}
    if !keeps_back(entries, rights, false) {
        let i = choose|i: int|
            0 <= i < entries.len() && gives_away(#[trigger] entries[i], rights, false);
        assert(acl::exceeds(entries[i], rights));
    }
    if !keeps_back(entries, rights, true) {
        let i = choose|i: int|
            0 <= i < entries.len() && gives_away(#[trigger] entries[i], rights, true);
        assert(acl::exceeds_worker(entries[i], rights));
    }
    if acl::any_exceeds(entries, rights) {
        let i = choose|i: int| 0 <= i < entries.len() && acl::exceeds(#[trigger] entries[i], rights);
        assert(gives_away(entries[i], rights, false));
    }
    if acl::any_exceeds_worker(entries, rights) {
        let i = choose|i: int|
            0 <= i < entries.len() && acl::exceeds_worker(#[trigger] entries[i], rights);
        assert(gives_away(entries[i], rights, true));
    }
}

/// The lists of what asks for authority, of what is above it and of what is above
/// a manifest are accepted exactly where they have the right owner and give
/// nothing away that would let someone change or replace the object.
pub proof fn system_lists_give_nothing_away(
    flag: bool,
    entries: &[AceInspection],
    executable: Result<(), PlatformError>,
    above: Result<(), PlatformError>,
    manifest: Result<(), PlatformError>,
)
    requires
        call_ensures(validate_authorization_executable_acl, (flag, entries), executable),
        call_ensures(validate_authorization_ancestor_acl, (flag, entries), above),
        call_ensures(validate_ancestor_entries, (flag, entries), manifest),
    ensures
        executable is Ok <==> flag && keeps_back(entries@, 0x500d_0116, false),
        above is Ok <==> flag && keeps_back(entries@, 0x500d_0040, false),
        manifest is Ok <==> !flag && keeps_back(entries@, 0x500d_0040, false),
        executable is Err ==> refused_by_rule(executable),
        above is Err ==> refused_by_rule(above),
        manifest is Err ==> refused_by_rule(manifest),
{
    rights_have_their_numbers();
    lemma_keeps_back(entries@, 0x500d_0116);
    lemma_keeps_back(entries@, 0x500d_0040);
}

/// The list of what is above a user's state is accepted exactly where its owner is
/// known and only the system and the user can replace it.
pub proof fn user_lists_give_nothing_away(
    owner: UserAncestorOwner,
    entries: &[AceInspection],
    result: Result<(), PlatformError>,
)
    requires
        call_ensures(validate_user_ancestor_entries, (owner, entries), result),
    ensures
        result is Ok <==> owner != UserAncestorOwner::Unexpected && keeps_back(
            entries@,
            0x500d_0040,
            true,
        ),
        result is Err ==> refused_by_rule(result),
{
    rights_have_their_numbers();
    lemma_keeps_back(entries@, 0x500d_0040);
}

/// The list of what is above a worker root is accepted exactly where the owner is
/// trusted and only the system and the worker can replace it or add to it; where
/// others may make directories in it, that much is allowed.
pub proof fn worker_ancestor_lists_give_nothing_away(
    owner_is_trusted: bool,
    entries: &[AceInspection],
    allow_create: bool,
    result: Result<(), PlatformError>,
)
    requires
        call_ensures(
            validate_worker_ancestor_acl,
            (owner_is_trusted, entries, allow_create),
            result,
        ),
    ensures
        result is Ok <==> owner_is_trusted && keeps_back(
            entries@,
            if allow_create {
                0x500d_0042u32
            } else {
                0x500d_0046u32
            },
            true,
        ),
        result is Err ==> refused_by_rule(result),
{
    rights_have_their_numbers();
    let rights = if allow_create {
        0x500d_0042u32
    } else {
        0x500d_0046u32
    };
    assert forall|i: int| 0 <= i < entries@.len() implies acl::untrusted_writer(
        #[trigger] entries@[i],
        allow_create,
    ) == gives_away(entries@[i], rights, true) by {
        let mask = entries@[i].mask;
        assert(mask & 0x500d_0046u32 != 0 <==> (mask & 0x500d_0042u32 != 0 || mask & 0x4u32 != 0))
            by (bit_vector);
    }
    if !keeps_back(entries@, rights, true) {
        let i = choose|i: int|
            0 <= i < entries@.len() && gives_away(#[trigger] entries@[i], rights, true);
        assert(acl::untrusted_writer(entries@[i], allow_create));
    }
}

/// A profile is safe exactly where no entry lets a stranger change it, be it by
/// inheritance.
pub proof fn profiles_are_safe_from_strangers(entries: &[AceInspection], safe: bool)
    requires
        call_ensures(dedicated_profile_acl_is_safe, (entries,), safe),
    ensures
        safe <==> forall|i: int|
            0 <= i < entries@.len() && (#[trigger] entries@[i]).allowed && entries@[i].principal
                == Principal::Unexpected ==> entries@[i].mask & 0x500d_0116 == 0,
{
    rights_have_their_numbers();
    if !safe {
        let i = choose|i: int|
            0 <= i < entries@.len() && acl::unsafe_profile_entry(#[trigger] entries@[i]);
        assert(entries@[i].mask & 0x500d_0116 != 0);
    } else {
        assert forall|i: int|
            0 <= i < entries@.len() && (#[trigger] entries@[i]).allowed && entries@[i].principal
                == Principal::Unexpected implies entries@[i].mask & 0x500d_0116 == 0 by {
            assert(!acl::unsafe_profile_entry(entries@[i]));
        }
    }
}

/// The principals of reported entries: the system first, then the administrators,
/// then the installer where it is told apart, then the worker. An entry that
/// neither allows nor denies counts as one that lets a stranger take over.
pub proof fn entries_are_told_apart(
    entries: &[RawAce],
    with_installer: bool,
    read: Vec<AceInspection>,
    i: int,
)
    requires
        call_ensures(inspect_aces, (entries, with_installer), read),
        0 <= i < entries@.len(),
    ensures
        read@.len() == entries@.len(),
        read@[i].flags == entries@[i].flags,
        entries@[i].kind <= 1 ==> {
            &&& read@[i].allowed == (entries@[i].kind == 0)
            &&& read@[i].mask == entries@[i].mask
            &&& read@[i].principal == {
                let sid = entries@[i].sid;
                if sid.system {
                    Principal::System
                } else if sid.administrators {
                    Principal::Administrators
                } else if sid.trusted_installer && with_installer {
                    Principal::TrustedInstaller
                } else if sid.worker {
                    Principal::Worker
                } else {
                    Principal::Unexpected
                }
            }
        },
        entries@[i].kind > 1 ==> read@[i].allowed && read@[i].principal == Principal::Unexpected
            && read@[i].mask == 0x500d_0040,
{
    rights_have_their_numbers();
}

/// Walking outwards from a user's state, the user's directories come first and
/// only the system's follow once one of them was reached.
pub proof fn owners_change_once(
    owner: UserAncestorOwner,
    reached: &mut bool,
    result: Result<(), PlatformError>,
)
    requires
        call_ensures(validate_user_ancestor_owner_transition, (owner, reached), result),
    ensures
        result is Ok <==> owner == UserAncestorOwner::TrustedSystem || owner
            == UserAncestorOwner::User && !*old(reached),
        result is Ok ==> *final(reached) == (owner == UserAncestorOwner::TrustedSystem),
        result is Err ==> refused_by_rule(result) && *final(reached) == *old(reached),
{
}

/// Only an individual user's account is a worker's.
pub proof fn workers_are_individual_users(sid_name_use: i32, result: Result<(), PlatformError>)
    requires
        call_ensures(validate_worker_sid_name_use, (sid_name_use,), result),
    ensures
        result is Ok <==> sid_name_use == 1,
        result is Err ==> refused_by_rule(result),
{
}

pub(crate) proof fn lemma_path_kind(
    facts: &PathFacts,
    directory: bool,
    result: Result<(), PlatformError>,
)
    requires
        result == descriptor::kind_verdict(*facts, directory),
    ensures
        result is Ok <==> {
            &&& facts.attributes != 0xffff_ffff
            &&& facts.attributes & 0x400 == 0
            &&& facts.file_type matches Ok(kind) && if directory {
                kind.0
            } else {
                kind.1
            }
        },
        facts.attributes == 0xffff_ffff ==> result == Err::<(), _>(facts.attribute_failure),
        facts.attributes != 0xffff_ffff && facts.attributes & 0x400 != 0 ==> refused_by_rule(
            result,
        ),
{
}

/// A path is of the kind that is asked for exactly where its attributes could be
/// read, it leads nowhere else, and it is a directory, or a file.
pub proof fn paths_are_of_their_kind(
    facts: &PathFacts,
    directory: bool,
    result: Result<(), PlatformError>,
)
    requires
        call_ensures(require_kind, (facts, directory), result),
    ensures
        result is Ok <==> {
            &&& facts.attributes != 0xffff_ffff
            &&& facts.attributes & 0x400 == 0
            &&& facts.file_type matches Ok(kind) && if directory {
                kind.0
            } else {
                kind.1
            }
        },
        facts.attributes == 0xffff_ffff ==> result == Err::<(), _>(facts.attribute_failure),
        facts.attributes != 0xffff_ffff && facts.attributes & 0x400 != 0 ==> refused_by_rule(
            result,
        ),
{
    lemma_path_kind(facts, directory, result);
}

/// A path counts as one that leads elsewhere where its attributes say so, or
/// cannot be read.
pub proof fn unreadable_paths_may_lead_elsewhere(attributes: u32, leads: bool)
    requires
        call_ensures(path_is_reparse_point, (attributes,), leads),
    ensures
        leads <==> attributes == 0xffff_ffff || attributes & 0x400 != 0,
{
}

} // verus!
