//! Who runs setup and on whose behalf, in terms of the identifiers and tokens that the
//! system reported.

use crate::authority_laws::{lemma_may_name_account, may_name_account};
use crate::error::{ErrorKind, OsStatus, PlatformError};
use crate::number;
use crate::unix_context;
use crate::unix_context::{
    parse_sudo_origin_entries, select_unix_execution, validate_unix_caller_ids,
    SetupHostPrivilege, UnixCallerIds, UnixExecutionSelection, UnixOriginalIdentity,
};
use crate::windows_token;
use crate::windows_token::{
    capture_setup_execution_context, has_linked_token, inspect_token_posture, linked_token_handle,
    select_windows_user_token, sid_last_sub_authority, token_information_size,
    windows_token_posture_from_native, TokenFacts, TokenGroup, WindowsIntegrityLevel,
    WindowsTokenElevationType, WindowsTokenPosture, WindowsUserTokenChoice,
};
use vstd::prelude::*;
use vstd::utf8::{decode_utf8, encode_utf8, valid_utf8};

verus! {

// ---------------------------------------------------------------------------
// Unix
// ---------------------------------------------------------------------------

/// User work runs as the caller where the caller's identifiers agree and are not root's;
/// as the user that root was elevated from, where the caller is root throughout and that
/// user and group are not root's; and otherwise not at all.
pub proof fn user_work_runs_as_an_ordinary_user<F>(
    caller: UnixCallerIds,
    origin: F,
    result: Result<UnixExecutionSelection, PlatformError>,
) where F: FnOnce() -> Result<UnixOriginalIdentity, PlatformError>
    requires
        call_ensures(select_unix_execution::<F>, (caller, origin), result),
    ensures
        ({
            let ordinary = caller.real_uid == caller.effective_uid && caller.real_gid
                == caller.effective_gid && caller.real_uid > 0 && caller.real_gid > 0;
            let root = caller.real_uid == 0 && caller.effective_uid == 0 && caller.real_gid == 0
                && caller.effective_gid == 0;
            &&& ordinary ==> result is Ok && result->Ok_0.privilege
                == SetupHostPrivilege::Ordinary && result->Ok_0.uid == caller.real_uid
                && result->Ok_0.gid == caller.real_gid
            &&& root && result is Ok ==> result->Ok_0.privilege == SetupHostPrivilege::Root
                && result->Ok_0.uid > 0 && result->Ok_0.gid > 0 && call_ensures(
                origin,
                (),
                Ok(UnixOriginalIdentity { uid: result->Ok_0.uid, gid: result->Ok_0.gid }),
            )
            &&& root && result is Err ==> exists|from: Result<UnixOriginalIdentity, PlatformError>|
                #[trigger] call_ensures(origin, (), from) && (from is Err || from->Ok_0.uid == 0
                    || from->Ok_0.gid == 0)
            &&& !ordinary && !root ==> (result matches Err(PlatformError::Policy {
                kind: ErrorKind::PermissionDenied,
                ..
            }))
        }),
{
}

/// A caller is taken at its word exactly where its two user ids agree and are not root's.
pub proof fn callers_are_neither_root_nor_mixed(
    actual: u32,
    effective: u32,
    result: Result<u32, PlatformError>,
)
    requires
        call_ensures(validate_unix_caller_ids, (actual, effective), result),
    ensures
        result is Ok <==> actual == effective && actual > 0,
        result matches Ok(uid) ==> uid == actual,
        result is Err ==> (result matches Err(PlatformError::Policy {
            kind: ErrorKind::PermissionDenied,
            ..
        })),
{
}

/// Whether exactly one entry is under a name, and this is its value.
pub open spec fn only_entry(
    entries: Seq<(Vec<u8>, Vec<u8>)>,
    name: Seq<u8>,
    value: Seq<u8>,
) -> bool {
    exists|at: int|
        0 <= at < entries.len() && (#[trigger] entries[at]).0@ == name && entries[at].1@ == value
            && forall|i: int| 0 <= i < entries.len() && (#[trigger] entries[i]).0@ == name ==> i
            == at
}

proof fn lemma_no_entry(entries: Seq<(Vec<u8>, Vec<u8>)>, name: Seq<u8>)
    ensures
        unix_context::values_of(entries, name).len() == 0 <==> forall|i: int|
            0 <= i < entries.len() ==> (#[trigger] entries[i]).0@ != name,
    decreases entries.len(),
{
    if entries.len() > 0 {
        let fewer = entries.drop_last();
        lemma_no_entry(fewer, name);
        assert forall|i: int| 0 <= i < fewer.len() implies (#[trigger] fewer[i])
            == entries[i] by {}
        if forall|i: int| 0 <= i < entries.len() ==> (#[trigger] entries[i]).0@ != name {
            assert forall|i: int| 0 <= i < fewer.len() implies (#[trigger] fewer[i]).0@
                != name by {
                assert(entries[i].0@ != name);
            }
            assert(entries[entries.len() - 1].0@ != name);
        }
        if unix_context::values_of(entries, name).len() == 0 {
            assert forall|i: int| 0 <= i < entries.len() implies (#[trigger] entries[i]).0@
                != name by {
                if i < fewer.len() {
                    assert(fewer[i].0@ != name);
                }
            }
        }
    }
}

proof fn lemma_only_entry(entries: Seq<(Vec<u8>, Vec<u8>)>, name: Seq<u8>)
    ensures
        unix_context::values_of(entries, name).len() == 1 ==> only_entry(
            entries,
            name,
            unix_context::values_of(entries, name)[0],
        ),
        forall|value: Seq<u8>| #[trigger]
            only_entry(entries, name, value) ==> unix_context::values_of(entries, name) == seq![
                value,
            ],
    decreases entries.len(),
{
    let found = unix_context::values_of(entries, name);
    if entries.len() > 0 {
        let fewer = entries.drop_last();
        let last = entries.len() - 1;
        lemma_only_entry(fewer, name);
        lemma_no_entry(fewer, name);
        assert forall|i: int| 0 <= i < fewer.len() implies (#[trigger] fewer[i])
            == entries[i] by {}
        if found.len() == 1 {
            if entries.last().0@ == name {
                assert(unix_context::values_of(fewer, name).len() == 0);
                assert(entries[last].1@ == found[0]);
                assert forall|i: int| 0 <= i < entries.len() && (#[trigger] entries[i]).0@ == name
                    implies i == last by {
                    if i < last {
                        assert(fewer[i].0@ != name);
                    }
                }
            } else {
                let at = choose|at: int|
                    0 <= at < fewer.len() && (#[trigger] fewer[at]).0@ == name && fewer[at].1@
                        == found[0] && forall|i: int|
                        0 <= i < fewer.len() && (#[trigger] fewer[i]).0@ == name ==> i == at;
                assert(entries[at].0@ == name);
                assert forall|i: int| 0 <= i < entries.len() && (#[trigger] entries[i]).0@ == name
                    implies i == at by {
                    if i < last {
                        assert(fewer[i].0@ == name);
                    }
                }
            }
        }
        assert forall|value: Seq<u8>| #[trigger] only_entry(entries, name, value) implies found
            == seq![value] by {
            let at = choose|at: int|
                0 <= at < entries.len() && (#[trigger] entries[at]).0@ == name && entries[at].1@
                    == value && forall|i: int|
                    0 <= i < entries.len() && (#[trigger] entries[i]).0@ == name ==> i == at;
            if at == last {
                assert forall|i: int| 0 <= i < fewer.len() implies (#[trigger] fewer[i]).0@
                    != name by {
                    if fewer[i].0@ == name {
                        assert(entries[i].0@ == name);
                    }
                }
                assert(found =~= seq![value]);
            } else {
                assert(fewer[at].0@ == name);
                assert forall|i: int| 0 <= i < fewer.len() && (#[trigger] fewer[i]).0@ == name
                    implies i == at by {
                    assert(entries[i].0@ == name);
                }
                assert(only_entry(fewer, name, value));
                if entries.last().0@ == name {
                    assert(entries[last].0@ == name);
                }
            }
        }
    }
}

/// Whether the environment says one number under a name, in decimal.
pub open spec fn says_number(
    entries: Seq<(Vec<u8>, Vec<u8>)>,
    name: Seq<char>,
    n: u32,
) -> bool {
    exists|value: Seq<u8>| #[trigger]
        only_entry(entries, encode_utf8(name), value) && valid_utf8(value) && decode_utf8(value)
            == number::decimal(n as nat)
}

/// Whether the environment names one account under a name.
pub open spec fn says_account(
    entries: Seq<(Vec<u8>, Vec<u8>)>,
    name: Seq<char>,
    user: Seq<char>,
) -> bool {
    exists|value: Seq<u8>| #[trigger]
        only_entry(entries, encode_utf8(name), value) && valid_utf8(value) && decode_utf8(value)
            == user && may_name_account(user)
}

proof fn lemma_says_number(entries: Seq<(Vec<u8>, Vec<u8>)>, name: Seq<char>, n: u32)
    requires
        unix_context::values_of(entries, encode_utf8(name)).len() <= 1,
    ensures
        unix_context::origin_id(unix_context::values_of(entries, encode_utf8(name))) == Ok::<
            _,
            PlatformError,
        >(n) <==> says_number(entries, name, n),
{
    let key = encode_utf8(name);
    let values = unix_context::values_of(entries, key);
    lemma_only_entry(entries, key);
    if says_number(entries, name, n) {
        let value = choose|value: Seq<u8>| #[trigger]
            only_entry(entries, key, value) && valid_utf8(value) && decode_utf8(value)
                == number::decimal(n as nat);
        assert(values == seq![value]);
        assert(values[0] == value);
        number::decimal_round_trip(n as nat, u32::MAX as nat);
    }
    if unix_context::origin_id(values) == Ok::<_, PlatformError>(n) {
        assert(only_entry(entries, key, values[0]));
        let said = decode_utf8(values[0]);
        let id = number::unsigned(said, 10, u32::MAX as nat)->0;
        assert(id as u32 as nat == id);
    }
}

proof fn lemma_says_account(
    entries: Seq<(Vec<u8>, Vec<u8>)>,
    name: Seq<char>,
    user: Seq<char>,
)
    requires
        unix_context::values_of(entries, encode_utf8(name)).len() <= 1,
    ensures
        unix_context::origin_user(unix_context::values_of(entries, encode_utf8(name))) == Ok::<
            _,
            PlatformError,
        >(user) <==> says_account(entries, name, user),
{
    let key = encode_utf8(name);
    let values = unix_context::values_of(entries, key);
    lemma_only_entry(entries, key);
    lemma_may_name_account(user);
    if says_account(entries, name, user) {
        let value = choose|value: Seq<u8>| #[trigger]
            only_entry(entries, key, value) && valid_utf8(value) && decode_utf8(value) == user
                && may_name_account(user);
        assert(values == seq![value]);
        assert(values[0] == value);
    }
    if unix_context::origin_user(values) == Ok::<_, PlatformError>(user) {
        assert(only_entry(entries, key, values[0]));
    }
}

/// The origin of an elevated caller is read exactly where the environment says its user
/// id, its group id and its name, each once, and is then what it says.
pub proof fn origins_are_read_from_three_entries(
    entries: &[(Vec<u8>, Vec<u8>)],
    result: Result<(UnixOriginalIdentity, String), PlatformError>,
    uid: u32,
    gid: u32,
    user: Seq<char>,
)
    requires
        call_ensures(parse_sudo_origin_entries, (entries,), result),
    ensures
        (result matches Ok((identity, name)) && identity.uid == uid && identity.gid == gid && name@
            == user) <==> says_number(entries@, "SUDO_UID"@, uid) && says_number(
            entries@,
            "SUDO_GID"@,
            gid,
        ) && says_account(entries@, "SUDO_USER"@, user),
{
    let uids = unix_context::values_of(entries@, encode_utf8("SUDO_UID"@));
    let gids = unix_context::values_of(entries@, encode_utf8("SUDO_GID"@));
    let users = unix_context::values_of(entries@, encode_utf8("SUDO_USER"@));
    lemma_only_entry(entries@, encode_utf8("SUDO_UID"@));
    lemma_only_entry(entries@, encode_utf8("SUDO_GID"@));
    lemma_only_entry(entries@, encode_utf8("SUDO_USER"@));
    if uids.len() <= 1 {
        lemma_says_number(entries@, "SUDO_UID"@, uid);
    }
    if gids.len() <= 1 {
        lemma_says_number(entries@, "SUDO_GID"@, gid);
    }
    if users.len() <= 1 {
        lemma_says_account(entries@, "SUDO_USER"@, user);
    }
}

// ---------------------------------------------------------------------------
// Windows
// ---------------------------------------------------------------------------

/// Postures are read from numbers: of the elevation one to three, of the integrity four
/// bands that end at `0x5000`. The attributes of the group are kept.
pub proof fn postures_are_read_from_numbers(
    elevation: u32,
    rid: u32,
    attributes: Option<u32>,
    result: Result<WindowsTokenPosture, PlatformError>,
)
    requires
        call_ensures(windows_token_posture_from_native, (elevation, rid, attributes), result),
    ensures
        result is Ok <==> 1 <= elevation <= 3 && rid < 0x5000,
        result matches Ok(posture) ==> {
            &&& posture.elevation_type == WindowsTokenElevationType::Default <==> elevation == 1
            &&& posture.elevation_type == WindowsTokenElevationType::Full <==> elevation == 2
            &&& posture.elevation_type == WindowsTokenElevationType::Limited <==> elevation == 3
            &&& posture.integrity_level == WindowsIntegrityLevel::Low <==> rid < 0x2000
            &&& posture.integrity_level == WindowsIntegrityLevel::Medium <==> 0x2000 <= rid
                < 0x3000
            &&& posture.integrity_level == WindowsIntegrityLevel::High <==> 0x3000 <= rid < 0x4000
            &&& posture.integrity_level == WindowsIntegrityLevel::System <==> 0x4000 <= rid
            &&& posture.administrators_group_attributes == attributes
        },
{
}

/// Whether the administrators are not among groups, or are once, with these attributes;
/// and every group has an identifier.
pub open spec fn has_administrators(groups: Seq<TokenGroup>, attributes: Option<u32>) -> bool {
    &&& forall|i: int| 0 <= i < groups.len() ==> (#[trigger] groups[i]).has_sid
    &&& match attributes {
        None => forall|i: int| 0 <= i < groups.len() ==> !(#[trigger] groups[i]).is_administrators,
        Some(attributes) => exists|at: int|
            0 <= at < groups.len() && (#[trigger] groups[at]).is_administrators
                && groups[at].attributes == attributes && forall|i: int|
                0 <= i < groups.len() && (#[trigger] groups[i]).is_administrators ==> i == at,
    }
}

proof fn lemma_has_administrators(groups: Seq<TokenGroup>, attributes: Option<u32>)
    ensures
        windows_token::administrators_attributes(groups) == Ok::<_, PlatformError>(attributes)
            <==> has_administrators(groups, attributes),
    decreases groups.len(),
{
    if groups.len() > 0 {
        let fewer = groups.drop_last();
        let last = groups.len() - 1;
        let group = groups.last();
        assert(group == groups[last]);
        assert forall|i: int| 0 <= i < fewer.len() implies (#[trigger] fewer[i])
            == groups[i] by {}
        lemma_has_administrators(fewer, attributes);
        lemma_has_administrators(fewer, None);
        if has_administrators(groups, attributes) {
            assert forall|i: int| 0 <= i < fewer.len() implies (#[trigger] fewer[i]).has_sid by {
                assert(groups[i].has_sid);
            }
            assert(group.has_sid);
            match attributes {
                None => {
                    assert forall|i: int| 0 <= i < fewer.len() implies !(
                    #[trigger] fewer[i]).is_administrators by {
                        assert(!groups[i].is_administrators);
                    }
                },
                Some(value) => {
                    let at = choose|at: int|
                        0 <= at < groups.len() && (#[trigger] groups[at]).is_administrators
                            && groups[at].attributes == value && forall|i: int|
                            0 <= i < groups.len() && (#[trigger] groups[i]).is_administrators ==> i
                                == at;
                    if at == last {
                        assert forall|i: int| 0 <= i < fewer.len() implies !(
                        #[trigger] fewer[i]).is_administrators by {
                            if groups[i].is_administrators {
                                assert(i == at);
                            }
                        }
                        assert(has_administrators(fewer, None));
                    } else {
                        assert(fewer[at].is_administrators);
                        assert forall|i: int|
                            0 <= i < fewer.len() && (#[trigger] fewer[i]).is_administrators
                            implies i == at by {
                            assert(groups[i].is_administrators);
                        }
                        assert(has_administrators(fewer, attributes));
                    }
                },
            }
        }
        if windows_token::administrators_attributes(groups) == Ok::<_, PlatformError>(attributes) {
            let found = windows_token::administrators_attributes(fewer)->Ok_0;
            lemma_has_administrators(fewer, found);
            assert forall|i: int| 0 <= i < groups.len() implies (#[trigger] groups[i]).has_sid by {
                if i < last {
                    assert(fewer[i].has_sid);
                }
            }
            if group.is_administrators {
                assert(found is None);
                assert forall|i: int|
                    0 <= i < groups.len() && (#[trigger] groups[i]).is_administrators implies i
                    == last by {
                    if i < last {
                        assert(!fewer[i].is_administrators);
                    }
                }
                assert(groups[last].is_administrators);
            } else {
                match attributes {
                    None => {
                        assert forall|i: int| 0 <= i < groups.len() implies !(
                        #[trigger] groups[i]).is_administrators by {
                            if i < last {
                                assert(!fewer[i].is_administrators);
                            }
                        }
                    },
                    Some(value) => {
                        let at = choose|at: int|
                            0 <= at < fewer.len() && (#[trigger] fewer[at]).is_administrators
                                && fewer[at].attributes == value && forall|i: int|
                                0 <= i < fewer.len() && (#[trigger] fewer[i]).is_administrators
                                    ==> i == at;
                        assert(groups[at].is_administrators);
                        assert forall|i: int|
                            0 <= i < groups.len() && (#[trigger] groups[i]).is_administrators
                            implies i == at by {
                            if i < last {
                                assert(fewer[i].is_administrators);
                            }
                        }
                    },
                }
            }
        }
    }
}

/// A token's posture is read exactly where everything about it is complete, its numbers
/// are known, its groups all have identifiers and the administrators are among them once
/// at most.
pub proof fn postures_are_read_from_whole_tokens(
    facts: &TokenFacts,
    result: Result<WindowsTokenPosture, PlatformError>,
    attributes: Option<u32>,
)
    requires
        call_ensures(inspect_token_posture, (facts,), result),
    ensures
        (result matches Ok(posture) && posture.administrators_group_attributes == attributes)
            <==> {
            &&& facts.elevation_complete && facts.integrity_complete && facts.groups_complete
            &&& facts.integrity_rid matches Ok(rid) && rid < 0x5000
            &&& 1 <= facts.elevation_type <= 3
            &&& facts.group_count <= facts.groups_available
            &&& has_administrators(facts.groups@, attributes)
        },
        result matches Ok(posture) ==> {
            &&& posture.elevation_type == WindowsTokenElevationType::Full <==> facts.elevation_type
                == 2
            &&& posture.elevation_type == WindowsTokenElevationType::Limited
                <==> facts.elevation_type == 3
            &&& posture.integrity_level == WindowsIntegrityLevel::Medium <==> 0x2000
                <= facts.integrity_rid->Ok_0 < 0x3000
            &&& posture.integrity_level == WindowsIntegrityLevel::High <==> 0x3000
                <= facts.integrity_rid->Ok_0 < 0x4000
        },
{
    lemma_has_administrators(facts.groups@, attributes);
}

/// A standard user's token.
pub open spec fn is_standard(posture: WindowsTokenPosture) -> bool {
    &&& posture.elevation_type == WindowsTokenElevationType::Default
    &&& posture.integrity_level == WindowsIntegrityLevel::Medium
    &&& posture.administrators_group_attributes is None
}

/// The limited half of an administrator's token: the group is there to deny, and not
/// enabled.
pub open spec fn is_limited_half(posture: WindowsTokenPosture) -> bool {
    &&& posture.elevation_type == WindowsTokenElevationType::Limited
    &&& posture.integrity_level == WindowsIntegrityLevel::Medium
    &&& posture.administrators_group_attributes matches Some(attributes) && attributes & 0x10 != 0
        && attributes & 0x4 == 0
}

/// The full half of an administrator's token: the group is enabled.
pub open spec fn is_full_half(posture: WindowsTokenPosture) -> bool {
    &&& posture.elevation_type == WindowsTokenElevationType::Full
    &&& posture.integrity_level == WindowsIntegrityLevel::High
    &&& posture.administrators_group_attributes matches Some(attributes) && attributes & 0x4 != 0
}

/// User work runs with a standard token as it is, with the limited half of a split one as
/// it is, and from the full half with the limited one that is linked to it; with nothing
/// else.
pub proof fn user_work_runs_with_a_limited_token(
    current: WindowsTokenPosture,
    linked: Option<WindowsTokenPosture>,
    result: Result<WindowsUserTokenChoice, PlatformError>,
    has_other: bool,
)
    requires
        call_ensures(select_windows_user_token, (current, linked), result),
        call_ensures(has_linked_token, (current,), has_other),
    ensures
        result == Ok::<_, PlatformError>(WindowsUserTokenChoice::Current) <==> is_standard(current)
            || is_limited_half(current) && linked is Some && is_full_half(linked->0),
        result == Ok::<_, PlatformError>(WindowsUserTokenChoice::LinkedLimited) <==> is_full_half(
            current,
        ) && linked is Some && is_limited_half(linked->0),
        result is Err ==> (result matches Err(PlatformError::Policy {
            kind: ErrorKind::PermissionDenied,
            ..
        })),
        has_other <==> current.elevation_type == WindowsTokenElevationType::Full
            || current.elevation_type == WindowsTokenElevationType::Limited,
{
}

/// A process is captured exactly where user work may run with one of its tokens, the copy
/// of that token is worth the same, and the user is the same. It is an administrator's
/// exactly where the token is the one that is linked.
pub proof fn processes_are_captured_with_their_token(
    current: WindowsTokenPosture,
    linked: Option<WindowsTokenPosture>,
    primary: WindowsTokenPosture,
    same_user: bool,
    choice: Result<WindowsUserTokenChoice, PlatformError>,
    result: Result<SetupHostPrivilege, PlatformError>,
)
    requires
        call_ensures(select_windows_user_token, (current, linked), choice),
        call_ensures(
            capture_setup_execution_context,
            (current, linked, primary, same_user),
            result,
        ),
    ensures
        result is Ok <==> choice is Ok && same_user && primary == if choice->Ok_0
            == WindowsUserTokenChoice::Current {
            current
        } else {
            linked->0
        },
        result matches Ok(privilege) ==> privilege == if choice->Ok_0
            == WindowsUserTokenChoice::Current {
            SetupHostPrivilege::Ordinary
        } else {
            SetupHostPrivilege::Administrator
        },
{
}

/// Sizes, handles and identifiers are taken from the system exactly where it gave them in
/// the way that it should.
pub proof fn token_answers_are_taken_whole(
    succeeded: bool,
    required: u32,
    status: OsStatus,
    size: Result<u32, PlatformError>,
    length: usize,
    needed: usize,
    handle: Option<usize>,
    other: Result<usize, PlatformError>,
    has_sid: bool,
    count: Option<u8>,
    last: Result<u32, PlatformError>,
    rid: Result<u32, PlatformError>,
)
    requires
        call_ensures(token_information_size, (succeeded, required, status), size),
        call_ensures(linked_token_handle, (length, needed, handle), other),
        call_ensures(sid_last_sub_authority, (has_sid, count, last), rid),
    ensures
        size is Ok <==> !succeeded && required > 0 && status.code == 122,
        size matches Ok(size) ==> size == required,
        !succeeded && required > 0 && status.code != 122 ==> size == Err::<u32, _>(
            PlatformError::Native { kind: status.kind, code: Some(status.code) },
        ),
        other is Ok <==> length >= needed && handle is Some && handle->0 != 0,
        other matches Ok(other) ==> handle == Some(other),
        rid is Ok <==> has_sid && count is Some && count->0 > 0 && last is Ok,
        rid is Ok ==> rid == last,
{
}

} // verus!
