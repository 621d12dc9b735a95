//! The tokens of a Windows process: what they are worth, and which of them
//! user work may run with.

use crate::error;
use crate::error::{invalid_data, permission_denied, OsStatus, PlatformError};
use crate::unix_context::SetupHostPrivilege;
use vstd::prelude::*;

verus! {

/// A group of a token that is enabled.
pub const SE_GROUP_ENABLED: u32 = 0x0000_0004;

/// A group of a token that only denies.
pub const SE_GROUP_USE_FOR_DENY_ONLY: u32 = 0x0000_0010;

/// Whether a token is one half of a split one.
#[derive(Clone, Copy, Debug, PartialEq, Eq, Structural)]
pub enum WindowsTokenElevationType {
    Default,
    Full,
    Limited,
}

/// How far a token is trusted.
#[derive(Clone, Copy, Debug, PartialEq, Eq, Structural)]
pub enum WindowsIntegrityLevel {
    Low,
    Medium,
    High,
    System,
}

/// What a token is worth.
#[derive(Clone, Copy, Debug, PartialEq, Eq, Structural)]
pub struct WindowsTokenPosture {
    pub elevation_type: WindowsTokenElevationType,
    pub integrity_level: WindowsIntegrityLevel,
    pub administrators_group_attributes: Option<u32>,
}

impl WindowsTokenPosture {
    /// The posture.
    pub fn new(
        elevation_type: WindowsTokenElevationType,
        integrity_level: WindowsIntegrityLevel,
        administrators_group_attributes: Option<u32>,
    ) -> (posture: Self)
        ensures
            posture == (WindowsTokenPosture {
                elevation_type,
                integrity_level,
                administrators_group_attributes,
            }),
    {
        WindowsTokenPosture { elevation_type, integrity_level, administrators_group_attributes }
    }
}

/// The elevation type that Windows numbers so.
pub open spec fn elevation_of(elevation_type: u32) -> Option<WindowsTokenElevationType> {
    if elevation_type == 1 {
        Some(WindowsTokenElevationType::Default)
    } else if elevation_type == 2 {
        Some(WindowsTokenElevationType::Full)
    } else if elevation_type == 3 {
        Some(WindowsTokenElevationType::Limited)
    } else {
        None
    }
}

/// The integrity level of an identifier: four bands of equal width.
pub open spec fn integrity_of(rid: u32) -> Option<WindowsIntegrityLevel> {
    if rid < 0x2000 {
        Some(WindowsIntegrityLevel::Low)
    } else if rid < 0x3000 {
        Some(WindowsIntegrityLevel::Medium)
    } else if rid < 0x4000 {
        Some(WindowsIntegrityLevel::High)
    } else if rid < 0x5000 {
        Some(WindowsIntegrityLevel::System)
    } else {
        None
    }
}

/// The posture that Windows describes, or why it is not understood.
pub open spec fn native_posture(
    elevation_type: u32,
    integrity_rid: u32,
    administrators_group_attributes: Option<u32>,
) -> Result<WindowsTokenPosture, PlatformError> {
    match elevation_of(elevation_type) {
        None => Err(error::malformed("Windows returned an unknown token elevation type")),
        Some(elevation_type) => match integrity_of(integrity_rid) {
            None => Err(error::denied("Windows token has an unsupported integrity level")),
            Some(integrity_level) => Ok(
                WindowsTokenPosture {
                    elevation_type,
                    integrity_level,
                    administrators_group_attributes,
                },
            ),
        },
    }
}

/// Reads a posture from what Windows reports.
pub fn windows_token_posture_from_native(
    elevation_type: u32,
    integrity_rid: u32,
    administrators_group_attributes: Option<u32>,
) -> (result: Result<WindowsTokenPosture, PlatformError>)
    ensures
        result == native_posture(elevation_type, integrity_rid, administrators_group_attributes),
{
    let elevation = if elevation_type == 1 {
        WindowsTokenElevationType::Default
    } else if elevation_type == 2 {
        WindowsTokenElevationType::Full
    } else if elevation_type == 3 {
        WindowsTokenElevationType::Limited
    } else {
        return Err(invalid_data("Windows returned an unknown token elevation type"));
    };
    let integrity_level = if integrity_rid < 0x2000 {
        WindowsIntegrityLevel::Low
    } else if integrity_rid < 0x3000 {
        WindowsIntegrityLevel::Medium
    } else if integrity_rid < 0x4000 {
        WindowsIntegrityLevel::High
    } else if integrity_rid < 0x5000 {
        WindowsIntegrityLevel::System
    } else {
        return Err(permission_denied("Windows token has an unsupported integrity level"));
    };
    Ok(WindowsTokenPosture::new(elevation, integrity_level, administrators_group_attributes))
}

// ---------------------------------------------------------------------------
// Inspection
// ---------------------------------------------------------------------------

/// A group of a token, as it was read.
#[derive(Clone, Copy, Debug, PartialEq, Eq, Structural)]
pub struct TokenGroup {
    pub has_sid: bool,
    pub is_administrators: bool,
    pub attributes: u32,
}

/// What was read of a token. Of each part: whether what Windows returned was
/// long enough to hold it.
#[derive(Debug)]
pub struct TokenFacts {
    pub elevation_complete: bool,
    pub elevation_type: u32,
    pub integrity_complete: bool,
    pub integrity_rid: Result<u32, PlatformError>,
    pub groups_complete: bool,
    pub group_count: usize,
    pub groups_available: usize,
    pub groups: Vec<TokenGroup>,
}

/// The attributes that the Administrators group has in a token. A group without
/// an identifier, and the group occurring twice, are refused.
pub open spec fn administrators_attributes(groups: Seq<TokenGroup>) -> Result<
    Option<u32>,
    PlatformError,
>
    decreases groups.len(),
{
    if groups.len() == 0 {
        Ok(None)
    } else {
        match administrators_attributes(groups.drop_last()) {
            Err(refusal) => Err(refusal),
            Ok(found) => {
                let group = groups.last();
                if !group.has_sid {
                    Err(error::malformed("Windows token contains a null group SID"))
                } else if !group.is_administrators {
                    Ok(found)
                } else if found is Some {
                    Err(error::malformed("Windows token repeats the Administrators group SID"))
                } else {
                    Ok(Some(group.attributes))
                }
            },
        }
    }
}

proof fn lemma_refusal_stays(groups: Seq<TokenGroup>, n: int)
    requires
        0 <= n <= groups.len(),
        administrators_attributes(groups.take(n)) is Err,
    ensures
        administrators_attributes(groups) == administrators_attributes(groups.take(n)),
    decreases groups.len() - n,
{
    if n < groups.len() {
        assert(groups.take(n + 1).drop_last() == groups.take(n));
        lemma_refusal_stays(groups, n + 1);
    } else {
        assert(groups.take(n) == groups);
    }
}

fn find_administrators(groups: &[TokenGroup]) -> (result: Result<Option<u32>, PlatformError>)
    ensures
        result == administrators_attributes(groups@),
{
    let mut found: Option<u32> = None;
    for i in 0..groups.len()
        invariant
            administrators_attributes(groups@.take(i as int)) == Ok::<_, PlatformError>(found),
    {
        assert(groups@.take(i + 1).drop_last() == groups@.take(i as int));
        proof {
            if administrators_attributes(groups@.take(i + 1)) is Err {
                lemma_refusal_stays(groups@, i + 1);
            }
        }
        let group = groups[i];
        if !group.has_sid {
            return Err(invalid_data("Windows token contains a null group SID"));
        }
        if group.is_administrators {
            if found.is_some() {
                return Err(invalid_data("Windows token repeats the Administrators group SID"));
            }
            found = Some(group.attributes);
        }
    }
    assert(groups@.take(groups@.len() as int) == groups@);
    Ok(found)
}

/// The posture of a token, from what was read of it.
pub open spec fn inspected_posture(facts: TokenFacts) -> Result<WindowsTokenPosture, PlatformError> {
    if !facts.elevation_complete {
        Err(error::malformed("Windows token elevation information is truncated"))
    } else if !facts.integrity_complete {
        Err(error::malformed("Windows token integrity information is truncated"))
    } else {
        match facts.integrity_rid {
            Err(failure) => Err(failure),
            Ok(rid) => if !facts.groups_complete {
                Err(error::malformed("Windows token group information is truncated"))
            } else if facts.group_count > facts.groups_available {
                Err(error::malformed("Windows token group count exceeds its buffer"))
            } else {
                match administrators_attributes(facts.groups@) {
                    Err(refusal) => Err(refusal),
                    Ok(attributes) => native_posture(facts.elevation_type, rid, attributes),
                }
            },
        }
    }
}

/// Judges what was read of a token.
pub fn inspect_token_posture(facts: &TokenFacts) -> (result: Result<
    WindowsTokenPosture,
    PlatformError,
>)
    ensures
        result == inspected_posture(*facts),
{
    if !facts.elevation_complete {
        return Err(invalid_data("Windows token elevation information is truncated"));
    }
    if !facts.integrity_complete {
        return Err(invalid_data("Windows token integrity information is truncated"));
    }
    let rid: u32 = match facts.integrity_rid {
        Ok(rid) => rid,
        Err(failure) => {
            return Err(failure);
        },
    };
    if !facts.groups_complete {
        return Err(invalid_data("Windows token group information is truncated"));
    }
    if facts.group_count > facts.groups_available {
        return Err(invalid_data("Windows token group count exceeds its buffer"));
    }
    match find_administrators(&facts.groups) {
        Ok(attributes) => windows_token_posture_from_native(
            facts.elevation_type,
            rid,
            attributes,
        ),
        Err(refusal) => Err(refusal),
    }
}

/// The last part of the identifier of an integrity level, from what was read of
/// it: whether there is an identifier, how many parts it has and what the last
/// one is, where it could be read.
pub fn sid_last_sub_authority(
    has_sid: bool,
    count: Option<u8>,
    last: Result<u32, PlatformError>,
) -> (result: Result<u32, PlatformError>)
    ensures
        result == if !has_sid {
            Err(error::malformed("Windows token contains a null integrity SID"))
        } else if count is None || count == Some(0u8) {
            Err(error::malformed("Windows integrity SID has no sub-authority"))
        } else {
            last
        },
{
    if !has_sid {
        return Err(invalid_data("Windows token contains a null integrity SID"));
    }
    match count {
        None => Err(invalid_data("Windows integrity SID has no sub-authority")),
        Some(count) => if count == 0 {
            Err(invalid_data("Windows integrity SID has no sub-authority"))
        } else {
            last
        },
    }
}

// ---------------------------------------------------------------------------
// Selection
// ---------------------------------------------------------------------------

/// Which token user work runs with.
#[derive(Clone, Copy, Debug, PartialEq, Eq, Structural)]
pub enum WindowsUserTokenChoice {
    Current,
    LinkedLimited,
}

/// A standard user's token.
pub open spec fn standard(posture: WindowsTokenPosture) -> bool {
    &&& posture.elevation_type == WindowsTokenElevationType::Default
    &&& posture.integrity_level == WindowsIntegrityLevel::Medium
    &&& posture.administrators_group_attributes is None
}

/// The limited half of an administrator's token: the group only denies.
pub open spec fn safe_limited(posture: WindowsTokenPosture) -> bool {
    &&& posture.elevation_type == WindowsTokenElevationType::Limited
    &&& posture.integrity_level == WindowsIntegrityLevel::Medium
    &&& posture.administrators_group_attributes matches Some(attributes) && attributes
        & SE_GROUP_USE_FOR_DENY_ONLY != 0 && attributes & SE_GROUP_ENABLED == 0
}

/// The full half of an administrator's token.
pub open spec fn safe_full(posture: WindowsTokenPosture) -> bool {
    &&& posture.elevation_type == WindowsTokenElevationType::Full
    &&& posture.integrity_level == WindowsIntegrityLevel::High
    &&& posture.administrators_group_attributes matches Some(attributes) && attributes
        & SE_GROUP_ENABLED != 0
}

/// Which token user work runs with: a standard token as it is, and of a split
/// one the limited half, as long as the other half fits it.
pub open spec fn chosen_token(
    current: WindowsTokenPosture,
    linked: Option<WindowsTokenPosture>,
) -> Result<WindowsUserTokenChoice, PlatformError> {
    if standard(current) {
        Ok(WindowsUserTokenChoice::Current)
    } else if safe_limited(current) && linked is Some && safe_full(linked->0) {
        Ok(WindowsUserTokenChoice::Current)
    } else if safe_full(current) && linked is Some && safe_limited(linked->0) {
        Ok(WindowsUserTokenChoice::LinkedLimited)
    } else {
        Err(error::denied("Windows has no safe non-elevated medium user token"))
    }
}

fn is_safe_limited(posture: WindowsTokenPosture) -> (holds: bool)
    ensures
        holds == safe_limited(posture),
{
    posture.elevation_type == WindowsTokenElevationType::Limited && posture.integrity_level
        == WindowsIntegrityLevel::Medium && match posture.administrators_group_attributes {
        Some(attributes) => attributes & SE_GROUP_USE_FOR_DENY_ONLY != 0 && attributes
            & SE_GROUP_ENABLED == 0,
        None => false,
    }
}

fn is_safe_full(posture: WindowsTokenPosture) -> (holds: bool)
    ensures
        holds == safe_full(posture),
{
    posture.elevation_type == WindowsTokenElevationType::Full && posture.integrity_level
        == WindowsIntegrityLevel::High && match posture.administrators_group_attributes {
        Some(attributes) => attributes & SE_GROUP_ENABLED != 0,
        None => false,
    }
}

/// Chooses the token that user work runs with.
pub fn select_windows_user_token(
    current: WindowsTokenPosture,
    linked: Option<WindowsTokenPosture>,
) -> (result: Result<WindowsUserTokenChoice, PlatformError>)
    ensures
        result == chosen_token(current, linked),
{
    if current.elevation_type == WindowsTokenElevationType::Default && current.integrity_level
        == WindowsIntegrityLevel::Medium && current.administrators_group_attributes.is_none() {
        return Ok(WindowsUserTokenChoice::Current);
    }
    let (linked_full, linked_limited) = match linked {
        Some(linked) => (is_safe_full(linked), is_safe_limited(linked)),
        None => (false, false),
    };
    if is_safe_limited(current) && linked_full {
        Ok(WindowsUserTokenChoice::Current)
    } else if is_safe_full(current) && linked_limited {
        Ok(WindowsUserTokenChoice::LinkedLimited)
    } else {
        Err(permission_denied("Windows has no safe non-elevated medium user token"))
    }
}

/// The posture of the token that was chosen.
pub open spec fn posture_of_choice(
    choice: WindowsUserTokenChoice,
    current: WindowsTokenPosture,
    linked: Option<WindowsTokenPosture>,
) -> WindowsTokenPosture {
    match choice {
        WindowsUserTokenChoice::Current => current,
        WindowsUserTokenChoice::LinkedLimited => linked->0,
    }
}

/// User work never runs with a token in which the Administrators group is
/// enabled, nor above medium integrity.
pub proof fn user_tokens_are_not_elevated(
    current: WindowsTokenPosture,
    linked: Option<WindowsTokenPosture>,
)
    ensures
        chosen_token(current, linked) matches Ok(choice) ==> {
            let posture = posture_of_choice(choice, current, linked);
            &&& posture.integrity_level == WindowsIntegrityLevel::Medium
            &&& posture.administrators_group_attributes matches Some(attributes) ==> attributes
                & SE_GROUP_ENABLED == 0
        },
{
}

/// Whether a token has another half to look at.
pub fn has_linked_token(current: WindowsTokenPosture) -> (linked: bool)
    ensures
        linked == (current.elevation_type != WindowsTokenElevationType::Default),
{
    current.elevation_type != WindowsTokenElevationType::Default
}

/// What the host lets the caller do, from the tokens of the process: the current
/// one, its other half, and the copy `primary` of the chosen one, which must
/// still be worth the same and belong to the same user.
pub open spec fn captured_privilege(
    current: WindowsTokenPosture,
    linked: Option<WindowsTokenPosture>,
    primary: WindowsTokenPosture,
    same_user: bool,
) -> Result<SetupHostPrivilege, PlatformError> {
    match chosen_token(current, linked) {
        Err(refusal) => Err(refusal),
        Ok(choice) => if primary != posture_of_choice(choice, current, linked) {
            Err(error::denied("Windows user token posture changed while it was captured"))
        } else if !same_user {
            Err(error::denied("Windows linked token belongs to a different user"))
        } else {
            Ok(
                match choice {
                    WindowsUserTokenChoice::LinkedLimited => SetupHostPrivilege::Administrator,
                    WindowsUserTokenChoice::Current => SetupHostPrivilege::Ordinary,
                },
            )
        },
    }
}

/// Judges the tokens of the process.
pub fn capture_setup_execution_context(
    current: WindowsTokenPosture,
    linked: Option<WindowsTokenPosture>,
    primary: WindowsTokenPosture,
    same_user: bool,
) -> (result: Result<SetupHostPrivilege, PlatformError>)
    ensures
        result == captured_privilege(current, linked, primary, same_user),
{
    let choice = match select_windows_user_token(current, linked) {
        Ok(choice) => choice,
        Err(refusal) => {
            return Err(refusal);
        },
    };
    let expected = match choice {
        WindowsUserTokenChoice::Current => current,
        WindowsUserTokenChoice::LinkedLimited => match linked {
            Some(linked) => linked,
            None => {
                return Err(
                    permission_denied("Windows elevated token has no linked limited user posture"),
                );
            },
        },
    };
    if primary != expected {
        return Err(permission_denied("Windows user token posture changed while it was captured"));
    }
    if !same_user {
        return Err(permission_denied("Windows linked token belongs to a different user"));
    }
    match choice {
        WindowsUserTokenChoice::LinkedLimited => Ok(SetupHostPrivilege::Administrator),
        WindowsUserTokenChoice::Current => Ok(SetupHostPrivilege::Ordinary),
    }
}

/// The size that Windows states for information on a token.
pub open spec fn information_size(succeeded: bool, required: u32, status: OsStatus) -> Result<
    u32,
    PlatformError,
> {
    if succeeded || required == 0 {
        Err(error::malformed("Windows returned an invalid token-information size"))
    } else if status.code != ERROR_INSUFFICIENT_BUFFER {
        Err(status.failed())
    } else {
        Ok(required)
    }
}

/// Accepts the size that Windows states for information on a token. `status` is
/// that of the first query, which asks for the size alone.
pub fn token_information_size(succeeded: bool, required: u32, status: OsStatus) -> (result: Result<
    u32,
    PlatformError,
>)
    ensures
        result == information_size(succeeded, required, status),
{
    if succeeded || required == 0 {
        return Err(invalid_data("Windows returned an invalid token-information size"));
    }
    if status.code != ERROR_INSUFFICIENT_BUFFER {
        return Err(status.failure());
    }
    Ok(required)
}

/// The handle of the limited token that is linked to an elevated one. `handle`
/// is what Windows wrote, of which `length` bytes are there and `needed` are
/// wanted; a null handle is none.
pub fn linked_token_handle(length: usize, needed: usize, handle: Option<usize>) -> (result: Result<
    usize,
    PlatformError,
>)
    ensures
        result == if length < needed {
            Err(error::malformed("Windows linked-token information is truncated"))
        } else if handle is None || handle == Some(0usize) {
            Err(error::denied("Windows token has no usable linked user token"))
        } else {
            Ok(handle->0)
        },
{
    if length < needed {
        return Err(invalid_data("Windows linked-token information is truncated"));
    }
    match handle {
        Some(handle) if handle != 0 => Ok(handle),
        _ => Err(permission_denied("Windows token has no usable linked user token")),
    }
}

/// The status of a query whose buffer was too small.
pub const ERROR_INSUFFICIENT_BUFFER: i32 = 122;

} // verus!
