//! Who runs setup on a Unix host, and on whose behalf.

use crate::error;
use crate::error::{permission_denied, PlatformError};
use crate::number;
use crate::number::{is_decimal_of, parse_unsigned};
use crate::principal;
use crate::principal::{validate_principal_name, PrincipalKind};
use crate::text;
use crate::text::{decode_chars, same_bytes, string_of};
use vstd::prelude::*;
use vstd::utf8::encode_utf8;

verus! {

/// What the host lets the caller do.
#[derive(Clone, Copy, Debug, PartialEq, Eq, Structural)]
pub enum SetupHostPrivilege {
    Ordinary,
    Root,
    Administrator,
}

/// The identity that the kernel reports of the caller.
#[derive(Clone, Copy, Debug, PartialEq, Eq, Structural)]
pub struct UnixCallerIds {
    pub real_uid: u32,
    pub effective_uid: u32,
    pub real_gid: u32,
    pub effective_gid: u32,
}

impl UnixCallerIds {
    /// The four ids.
    pub fn new(real_uid: u32, effective_uid: u32, real_gid: u32, effective_gid: u32) -> (ids: Self)
        ensures
            ids == (UnixCallerIds { real_uid, effective_uid, real_gid, effective_gid }),
    {
        UnixCallerIds { real_uid, effective_uid, real_gid, effective_gid }
    }
}

/// The user that an elevated caller started from.
#[derive(Clone, Copy, Debug, PartialEq, Eq, Structural)]
pub struct UnixOriginalIdentity {
    pub uid: u32,
    pub gid: u32,
}

impl UnixOriginalIdentity {
    /// The two ids.
    pub fn new(uid: u32, gid: u32) -> (identity: Self)
        ensures
            identity == (UnixOriginalIdentity { uid, gid }),
    {
        UnixOriginalIdentity { uid, gid }
    }
}

/// As whom user work runs, and what the host lets the caller do.
#[derive(Clone, Copy, Debug, PartialEq, Eq, Structural)]
pub struct UnixExecutionSelection {
    pub privilege: SetupHostPrivilege,
    pub uid: u32,
    pub gid: u32,
}

impl UnixExecutionSelection {
    /// The selection.
    pub fn new(privilege: SetupHostPrivilege, uid: u32, gid: u32) -> (selection: Self)
        ensures
            selection == (UnixExecutionSelection { privilege, uid, gid }),
    {
        UnixExecutionSelection { privilege, uid, gid }
    }
}

/// An unprivileged caller whose real and effective ids agree.
pub open spec fn ordinary_caller(caller: UnixCallerIds) -> bool {
    &&& caller.real_uid == caller.effective_uid && caller.real_uid != 0
    &&& caller.real_gid == caller.effective_gid && caller.real_gid != 0
}

/// A caller who is root in every id.
pub open spec fn root_caller(caller: UnixCallerIds) -> bool {
    caller.real_uid == 0 && caller.effective_uid == 0 && caller.real_gid == 0
        && caller.effective_gid == 0
}

/// What root selects, given where it was elevated from.
pub open spec fn elevated_selection(origin: Result<UnixOriginalIdentity, PlatformError>) -> Result<
    UnixExecutionSelection,
    PlatformError,
> {
    match origin {
        Err(failure) => Err(failure),
        Ok(original) => if original.uid == 0 || original.gid == 0 {
            Err(error::denied("elevated setup requires an original non-root user and group"))
        } else {
            Ok(
                UnixExecutionSelection {
                    privilege: SetupHostPrivilege::Root,
                    uid: original.uid,
                    gid: original.gid,
                },
            )
        },
    }
}

/// Selects as whom user work runs. An ordinary caller is selected as is, and
/// `elevated_origin` is not asked; root needs an unprivileged origin; any other
/// mixture of ids is refused.
pub fn select_unix_execution<F>(caller: UnixCallerIds, elevated_origin: F) -> (result: Result<
    UnixExecutionSelection,
    PlatformError,
>) where F: FnOnce() -> Result<UnixOriginalIdentity, PlatformError>
    requires
        root_caller(caller) ==> call_requires(elevated_origin, ()),
    ensures
        if ordinary_caller(caller) {
            result == Ok::<_, PlatformError>(
                UnixExecutionSelection {
                    privilege: SetupHostPrivilege::Ordinary,
                    uid: caller.real_uid,
                    gid: caller.real_gid,
                },
            )
        } else if root_caller(caller) {
            exists|origin: Result<UnixOriginalIdentity, PlatformError>| #[trigger]
                call_ensures(elevated_origin, (), origin) && result == elevated_selection(origin)
        } else {
            result == Err::<UnixExecutionSelection, _>(
                error::denied("ambiguous Unix setup caller identity"),
            )
        },
{
    if caller.real_uid == caller.effective_uid && caller.real_uid != 0 && caller.real_gid
        == caller.effective_gid && caller.real_gid != 0 {
        return Ok(
            UnixExecutionSelection::new(
                SetupHostPrivilege::Ordinary,
                caller.real_uid,
                caller.real_gid,
            ),
        );
    }
    if caller.real_uid == 0 && caller.effective_uid == 0 && caller.real_gid == 0
        && caller.effective_gid == 0 {
        let origin = elevated_origin();
        assert(call_ensures(elevated_origin, (), origin));
        let original = match origin {
            Ok(original) => original,
            Err(failure) => {
                return Err(failure);
            },
        };
        if original.uid == 0 || original.gid == 0 {
            return Err(
                permission_denied("elevated setup requires an original non-root user and group"),
            );
        }
        return Ok(
            UnixExecutionSelection::new(SetupHostPrivilege::Root, original.uid, original.gid),
        );
    }
    Err(permission_denied("ambiguous Unix setup caller identity"))
}

/// Whatever is selected is never root.
pub proof fn selections_are_never_root(
    caller: UnixCallerIds,
    origin: Result<UnixOriginalIdentity, PlatformError>,
)
    ensures
        ordinary_caller(caller) ==> caller.real_uid != 0 && caller.real_gid != 0,
        elevated_selection(origin) matches Ok(selection) ==> selection.uid != 0 && selection.gid
            != 0,
        !(ordinary_caller(caller) && root_caller(caller)),
{
}

/// The user id of a caller who is neither privileged nor mixed.
pub fn validate_unix_caller_ids(real_uid: u32, effective_uid: u32) -> (result: Result<
    u32,
    PlatformError,
>)
    ensures
        if real_uid == 0 || effective_uid == 0 || real_uid != effective_uid {
            result == Err::<u32, _>(
                error::denied(
                    "privileged or mismatched caller identity requires an authenticated elevation handoff",
                ),
            )
        } else {
            result == Ok::<_, PlatformError>(real_uid)
        },
{
    if real_uid == 0 || effective_uid == 0 || real_uid != effective_uid {
        return Err(
            permission_denied(
                "privileged or mismatched caller identity requires an authenticated elevation handoff",
            ),
        );
    }
    Ok(real_uid)
}

// ---------------------------------------------------------------------------
// The origin of an elevated caller
// ---------------------------------------------------------------------------

/// The values of the environment entries under `key`.
pub open spec fn values_of(entries: Seq<(Vec<u8>, Vec<u8>)>, key: Seq<u8>) -> Seq<Seq<u8>>
    decreases entries.len(),
{
    if entries.len() == 0 {
        seq![]
    } else if entries.last().0@ == key {
        values_of(entries.drop_last(), key).push(entries.last().1@)
    } else {
        values_of(entries.drop_last(), key)
    }
}

/// The text of the only value, where there is one and it is text.
pub open spec fn only_text(values: Seq<Seq<u8>>) -> Option<Seq<char>> {
    if values.len() == 0 {
        None
    } else {
        text::decoded(values[0])
    }
}

/// The id that a value stands for.
pub open spec fn origin_id(values: Seq<Seq<u8>>) -> Result<u32, PlatformError> {
    match only_text(values) {
        None => Err(error::denied("elevated setup is missing a valid sudo origin")),
        Some(value) => match number::unsigned(value, 10, u32::MAX as nat) {
            None => Err(error::denied("elevated setup has malformed sudo origin ids")),
            Some(id) => if number::decimal(id) != value {
                Err(error::denied("elevated setup has non-canonical sudo origin ids"))
            } else {
                Ok(id as u32)
            },
        },
    }
}

/// The user name that a value stands for.
pub open spec fn origin_user(values: Seq<Seq<u8>>) -> Result<Seq<char>, PlatformError> {
    match only_text(values) {
        None => Err(error::denied("elevated setup is missing a valid sudo original user")),
        Some(user) => match principal::principal_name_verdict(user) {
            Err(refusal) => Err(refusal),
            Ok(()) => Ok(user),
        },
    }
}

/// The origin that the environment describes: each of the three fields at most
/// once, then the user id, the group id and the name, in this order.
pub open spec fn sudo_origin(entries: Seq<(Vec<u8>, Vec<u8>)>) -> Result<
    (UnixOriginalIdentity, Seq<char>),
    PlatformError,
> {
    let uids = values_of(entries, encode_utf8("SUDO_UID"@));
    let gids = values_of(entries, encode_utf8("SUDO_GID"@));
    let users = values_of(entries, encode_utf8("SUDO_USER"@));
    if uids.len() > 1 || gids.len() > 1 || users.len() > 1 {
        Err(error::denied("elevated setup has ambiguous sudo origin fields"))
    } else {
        match origin_id(uids) {
            Err(refusal) => Err(refusal),
            Ok(uid) => match origin_id(gids) {
                Err(refusal) => Err(refusal),
                Ok(gid) => match origin_user(users) {
                    Err(refusal) => Err(refusal),
                    Ok(user) => Ok((UnixOriginalIdentity { uid, gid }, user)),
                },
            },
        }
    }
}

fn find_values<'a>(entries: &'a [(Vec<u8>, Vec<u8>)], key: &str) -> (result: Result<
    Option<&'a Vec<u8>>,
    PlatformError,
>)
    ensures
        match result {
            Ok(Some(value)) => values_of(entries@, encode_utf8(key@)) == seq![value@],
            Ok(None) => values_of(entries@, encode_utf8(key@)).len() == 0,
            Err(refusal) => values_of(entries@, encode_utf8(key@)).len() > 1 && refusal
                == error::denied("elevated setup has ambiguous sudo origin fields"),
        },
{
    let wanted = key.as_bytes();
    let mut found: Option<&'a Vec<u8>> = None;
    for i in 0..entries.len()
        invariant
            wanted@ == encode_utf8(key@),
            match found {
                Some(value) => values_of(entries@.take(i as int), wanted@) == seq![value@],
                None => values_of(entries@.take(i as int), wanted@).len() == 0,
            },
    {
        assert(entries@.take(i + 1).drop_last() == entries@.take(i as int));
        if same_bytes(&entries[i].0, wanted) {
            if found.is_some() {
                proof {
                    lemma_values_grow(entries@, wanted@, i + 1);
                }
                return Err(permission_denied("elevated setup has ambiguous sudo origin fields"));
            }
            found = Some(&entries[i].1);
            assert(values_of(entries@.take(i + 1), wanted@) =~= seq![entries@[i as int].1@]);
        }
    }
    assert(entries@.take(entries@.len() as int) == entries@);
    Ok(found)
}

proof fn lemma_values_grow(entries: Seq<(Vec<u8>, Vec<u8>)>, key: Seq<u8>, n: int)
    requires
        0 <= n <= entries.len(),
    ensures
        values_of(entries.take(n), key).len() <= values_of(entries, key).len(),
    decreases entries.len() - n,
{
    if n < entries.len() {
        lemma_values_grow(entries, key, n + 1);
        assert(entries.take(n + 1).drop_last() == entries.take(n));
    } else {
        assert(entries.take(n) == entries);
    }
}

fn read_id(value: Option<&Vec<u8>>) -> (result: Result<u32, PlatformError>)
    ensures
        result == origin_id(
            match value {
                Some(value) => seq![value@],
                None => seq![],
            },
        ),
{
    let chars = match value {
        None => {
            return Err(permission_denied("elevated setup is missing a valid sudo origin"));
        },
        Some(value) => match decode_chars(value) {
            None => {
                return Err(permission_denied("elevated setup is missing a valid sudo origin"));
            },
            Some(chars) => chars,
        },
    };
    match parse_unsigned(&chars, 10, u32::MAX as u64) {
        None => Err(permission_denied("elevated setup has malformed sudo origin ids")),
        Some(id) => if !is_decimal_of(&chars, id) {
            Err(permission_denied("elevated setup has non-canonical sudo origin ids"))
        } else {
            Ok(id as u32)
        },
    }
}

/// Reads the origin of an elevated caller from the environment.
pub fn parse_sudo_origin_entries(entries: &[(Vec<u8>, Vec<u8>)]) -> (result: Result<
    (UnixOriginalIdentity, String),
    PlatformError,
>)
    ensures
        match result {
            Ok((identity, user)) => sudo_origin(entries@) == Ok::<_, PlatformError>(
                (identity, user@),
            ),
            Err(refusal) => sudo_origin(entries@) == Err::<
                (UnixOriginalIdentity, Seq<char>),
                _,
            >(refusal),
        },
{
    let uid_value = match find_values(entries, "SUDO_UID") {
        Ok(value) => value,
        Err(refusal) => {
            return Err(refusal);
        },
    };
    let gid_value = match find_values(entries, "SUDO_GID") {
        Ok(value) => value,
        Err(refusal) => {
            return Err(refusal);
        },
    };
    let user_value = match find_values(entries, "SUDO_USER") {
        Ok(value) => value,
        Err(refusal) => {
            return Err(refusal);
        },
    };
    proof {
        if uid_value is None {
            assert(values_of(entries@, encode_utf8("SUDO_UID"@)) =~= seq![]);
        }
        if gid_value is None {
            assert(values_of(entries@, encode_utf8("SUDO_GID"@)) =~= seq![]);
        }
    }
    let uid: u32 = match read_id(uid_value) {
        Ok(uid) => uid,
        Err(refusal) => {
            return Err(refusal);
        },
    };
    let gid: u32 = match read_id(gid_value) {
        Ok(gid) => gid,
        Err(refusal) => {
            return Err(refusal);
        },
    };
    let decoded_user = match user_value {
        None => None,
        Some(value) => decode_chars(value),
    };
    let user = match decoded_user {
        None => {
            return Err(permission_denied("elevated setup is missing a valid sudo original user"));
        },
        Some(chars) => string_of(&chars),
    };
    match validate_principal_name(PrincipalKind::UnixUid, user.as_str()) {
        Ok(()) => Ok((UnixOriginalIdentity::new(uid, gid), user)),
        Err(refusal) => Err(refusal),
    }
}

} // verus!
