//! What the system's answers mean: sizes, identifiers, names and folders.

use crate::acl;
use crate::acl::validate_worker_sid_name_use;
use crate::error;
use crate::error::{invalid_data, ErrorKind, OsStatus, PlatformError};
use crate::principal;
use crate::principal::{PrincipalKind, PrincipalModel, WorkerAccountPolicy, WorkerPrincipal};
use crate::scan;
use crate::windows_path;
use crate::windows_path::windows_components_equal;
use crate::windows_token;
use crate::windows_token::{token_information_size, ERROR_INSUFFICIENT_BUFFER};
use vstd::prelude::*;
use vstd::slice::{slice_subrange, slice_to_vec};

verus! {

/// The name of the system.
pub fn platform_name() -> (name: &'static str)
    ensures
        name@ == "windows"@,
{
    "windows"
}

// ---------------------------------------------------------------------------
// Texts
// ---------------------------------------------------------------------------

/// The UTF-16 code units of a character: one, or a pair of surrogates.
pub open spec fn utf16_char(c: char) -> Seq<u16> {
    let code = c as int;
    if code < 0x10000 {
        seq![code as u16]
    } else {
        seq![
            (0xd800 + (code - 0x10000) / 0x400) as u16,
            (0xdc00 + (code - 0x10000) % 0x400) as u16,
        ]
    }
}

/// The UTF-16 code units of a text.
pub open spec fn utf16(text: Seq<char>) -> Seq<u16>
    decreases text.len(),
{
    if text.len() == 0 {
        seq![]
    } else {
        utf16(text.drop_last()) + utf16_char(text.last())
    }
}

/// The last unit of a character tells how many units the character has.
proof fn last_unit_tells_the_length(c: char)
    ensures
        utf16_char(c).len() == if 0xdc00 <= utf16_char(c).last() < 0xe000 {
            2nat
        } else {
            1nat
        },
{
}

/// Different characters have different code units.
proof fn utf16_char_is_injective(c: char, d: char)
    requires
        utf16_char(c) == utf16_char(d),
    ensures
        c == d,
{
    let (m, n) = (c as int - 0x10000, d as int - 0x10000);
    assert(utf16_char(c).last() == utf16_char(d).last());
    if m >= 0 {
        assert(m / 0x400 == n / 0x400 && m % 0x400 == n % 0x400);
    } else {
        assert(utf16_char(c)[0] as int == c as int);
        assert(utf16_char(d)[0] as int == d as int);
    }
}

/// Different texts have different code units.
pub proof fn utf16_is_injective(a: Seq<char>, b: Seq<char>)
    requires
        utf16(a) == utf16(b),
    ensures
        a == b,
    decreases a.len(),
{
    if a.len() == 0 || b.len() == 0 {
        assert(utf16(a).len() == utf16(b).len());
        assert(a.len() > 0 ==> utf16(a).len() > 0);
        assert(b.len() > 0 ==> utf16(b).len() > 0);
        assert(a =~= b);
    } else {
        let (c, d) = (a.last(), b.last());
        let units = utf16(a);
        last_unit_tells_the_length(c);
        last_unit_tells_the_length(d);
        assert(units.last() == utf16_char(c).last());
        assert(units.last() == utf16_char(d).last());
        let split = units.len() - utf16_char(c).len();
        assert(utf16(a.drop_last()) =~= units.take(split));
        assert(utf16(b.drop_last()) =~= units.take(split));
        assert(utf16_char(c) =~= units.skip(split));
        assert(utf16_char(d) =~= units.skip(split));
        utf16_char_is_injective(c, d);
        utf16_is_injective(a.drop_last(), b.drop_last());
        assert(a =~= a.drop_last().push(c));
        assert(b =~= b.drop_last().push(d));
    }
}

/// The text that UTF-16 code units encode, where they encode one.
pub open spec fn utf16_text(units: Seq<u16>) -> Option<Seq<char>> {
    if exists|text: Seq<char>| #[trigger] utf16(text) == units {
        Some(choose|text: Seq<char>| #[trigger] utf16(text) == units)
    } else {
        None
    }
}

/// `String::from_utf16`: the text that code units encode, or nothing where they
/// encode none because a surrogate stands alone.
#[verifier::external_body]
fn decode_utf16(units: &[u16]) -> (text: Option<String>)
    ensures
        match text {
            Some(found) => utf16(found@) == units@,
            None => forall|other: Seq<char>| #[trigger] utf16(other) != units@,
        },
{
    String::from_utf16(units).ok()
}

/// What stands before the terminator, or everything where there is none.
pub open spec fn terminated(units: Seq<u16>) -> Seq<u16> {
    units.take(scan::until(units, 0u16) as int)
}

/// Finds what stands before the terminator.
pub fn until_terminator(units: &[u16]) -> (text: &[u16])
    ensures
        text@ == terminated(units@),
{
    let mut at: usize = 0;
    assert(units@.skip(0) =~= units@);
    while at < units.len() && units[at] != 0
        invariant
            at <= units@.len(),
            scan::until(units@, 0u16) == at + scan::until(units@.skip(at as int), 0u16),
        decreases units@.len() - at,
    {
        assert(units@.skip(at as int).drop_first() =~= units@.skip(at + 1));
        at = at + 1;
    }
    assert(at < units@.len() ==> units@.skip(at as int)[0] == units@[at as int]);
    let text = slice_subrange(units, 0, at);
    assert(text@ =~= units@.take(at as int));
    text
}

/// What a text that the system returned says, where it can be read.
pub open spec fn system_text(units: Seq<u16>, refusal: &'static str) -> Result<
    Seq<char>,
    PlatformError,
> {
    match utf16_text(units) {
        Some(text) => Ok(text),
        None => Err(error::malformed(refusal)),
    }
}

/// What a text is.
pub open spec fn text_model(text: Result<String, PlatformError>) -> Result<
    Seq<char>,
    PlatformError,
> {
    match text {
        Ok(text) => Ok(text@),
        Err(failure) => Err(failure),
    }
}

fn read_text(units: &[u16], refusal: &'static str) -> (text: Result<String, PlatformError>)
    ensures
        text_model(text) == system_text(units@, refusal),
{
    match decode_utf16(units) {
        Some(text) => {
            proof {
                let found = choose|found: Seq<char>| #[trigger] utf16(found) == units@;
                assert(utf16(text@) == units@);
                utf16_is_injective(found, text@);
            }
            Ok(text)
        },
        None => Err(invalid_data(refusal)),
    }
}

/// Reads an identifier that the system wrote out.
pub fn sid_to_string(written: Result<Vec<u16>, PlatformError>) -> (text: Result<
    String,
    PlatformError,
>)
    ensures
        text_model(text) == (match written {
            Err(failure) => Err(failure),
            Ok(units) => system_text(units@, "Windows returned a non-UTF-16 SID string"),
        }),
{
    match written {
        Err(failure) => Err(failure),
        Ok(units) => read_text(&units, "Windows returned a non-UTF-16 SID string"),
    }
}

/// Reads an attribute of an account, which is empty where there is none.
pub fn wide_pointer_to_string(value: &Option<Vec<u16>>) -> (text: Result<String, PlatformError>)
    ensures
        text_model(text) == (match *value {
            None => Ok(""@),
            Some(units) => system_text(
                units@,
                "Windows returned a non-UTF-16 account attribute",
            ),
        }),
{
    match value {
        None => Ok("".to_owned()),
        Some(units) => read_text(units, "Windows returned a non-UTF-16 account attribute"),
    }
}

/// Whether two names are the same to Windows.
pub fn windows_names_equal<F: Fn(&[u16], &[u16]) -> i32>(
    left: &[u16],
    right: &[u16],
    compare: &F,
) -> (same: bool)
    requires
        windows_path::comparer(*compare),
    ensures
        same == windows_path::equal_components(*compare, left@, right@),
{
    windows_components_equal(left, right, compare)
}

// ---------------------------------------------------------------------------
// Identifiers
// ---------------------------------------------------------------------------

/// What came of copying an identifier: its length, why that is not known, and
/// the copy.
#[derive(Debug)]
pub struct SidCopy {
    pub length: u32,
    pub length_failure: PlatformError,
    pub copied: Result<Vec<u8>, PlatformError>,
}

/// The identifier that was copied.
pub open spec fn copied_sid(copy: SidCopy) -> Result<Seq<u8>, PlatformError> {
    if copy.length == 0 {
        Err(copy.length_failure)
    } else {
        match copy.copied {
            Ok(sid) => Ok(sid@),
            Err(failure) => Err(failure),
        }
    }
}

/// What an identifier is.
pub open spec fn sid_model(sid: Result<Vec<u8>, PlatformError>) -> Result<Seq<u8>, PlatformError> {
    match sid {
        Ok(sid) => Ok(sid@),
        Err(failure) => Err(failure),
    }
}

fn take_copy(copy: SidCopy) -> (sid: Result<Vec<u8>, PlatformError>)
    ensures
        sid_model(sid) == copied_sid(copy),
{
    if copy.length == 0 {
        Err(copy.length_failure)
    } else {
        copy.copied
    }
}

/// Copies an identifier that the system returned, which must be there.
pub fn copy_sid(source: Option<SidCopy>) -> (sid: Result<Vec<u8>, PlatformError>)
    ensures
        sid_model(sid) == (match source {
            None => Err(error::malformed("Windows returned a null account SID")),
            Some(copy) => copied_sid(copy),
        }),
{
    match source {
        None => Err(invalid_data("Windows returned a null account SID")),
        Some(copy) => take_copy(copy),
    }
}

/// Whether a query for a size told the size: it must fail, because the buffer
/// was too small.
pub open spec fn size_told(status: OsStatus) -> Result<(), PlatformError> {
    if status.code == ERROR_INSUFFICIENT_BUFFER {
        Ok(())
    } else {
        Err(status.failed())
    }
}

fn require_size(status: OsStatus) -> (result: Result<(), PlatformError>)
    ensures
        result == size_told(status),
{
    if status.code == ERROR_INSUFFICIENT_BUFFER {
        Ok(())
    } else {
        Err(status.failure())
    }
}

/// Finds the identifier of the current user: the process's token is opened, the
/// size of its user is asked for, the user is read, and its identifier is copied.
pub fn current_user_sid(
    token: Result<(), PlatformError>,
    size_status: OsStatus,
    user: Result<(), PlatformError>,
    copy: SidCopy,
) -> (sid: Result<Vec<u8>, PlatformError>)
    ensures
        sid_model(sid) == (match error::first_refusal(seq![token, size_told(size_status), user]) {
            Err(failure) => Err(failure),
            Ok(()) => copied_sid(copy),
        }),
{
    let required = [token, require_size(size_status), user];
    let all = error::require_all(&required);
    assert(required@ =~= seq![token, size_told(size_status), user]);
    match all {
        Ok(()) => take_copy(copy),
        Err(failure) => Err(failure),
    }
}

/// Finds the identifier of a named account.
pub fn lookup_account_sid(size_status: OsStatus, found: Result<Vec<u8>, PlatformError>) -> (sid: Result<
    Vec<u8>,
    PlatformError,
>)
    ensures
        sid_model(sid) == (match size_told(size_status) {
            Err(failure) => Err(failure),
            Ok(()) => sid_model(found),
        }),
{
    match require_size(size_status) {
        Ok(()) => found,
        Err(failure) => Err(failure),
    }
}

/// An identifier of one of the system's own accounts, of which `size` bytes
/// were written.
pub fn well_known_sid(created: Result<(), PlatformError>, buffer: &[u8], size: usize) -> (sid: Result<
    Vec<u8>,
    PlatformError,
>)
    requires
        size <= buffer@.len(),
    ensures
        sid_model(sid) == (match created {
            Err(failure) => Err(failure),
            Ok(()) => Ok(buffer@.take(size as int)),
        }),
{
    match created {
        Err(failure) => Err(failure),
        Ok(()) => {
            let written = slice_subrange(buffer, 0, size);
            assert(written@ =~= buffer@.take(size as int));
            Ok(slice_to_vec(written))
        },
    }
}

/// What an account is named, and what it is.
#[derive(Debug)]
pub struct AccountFacts {
    pub kind: i32,
    pub name: Vec<u16>,
}

/// The name of the account with an identifier, which must be a single user's.
pub open spec fn account_name(size_status: OsStatus, found: Result<AccountFacts, PlatformError>) -> Result<
    Seq<char>,
    PlatformError,
> {
    match size_told(size_status) {
        Err(failure) => Err(failure),
        Ok(()) => match found {
            Err(failure) => Err(failure),
            Ok(account) => match acl::sid_use_verdict(account.kind) {
                Err(failure) => Err(failure),
                Ok(()) => system_text(
                    terminated(account.name@),
                    "Windows returned a non-UTF-16 account name",
                ),
            },
        },
    }
}

/// Finds the name of the account with an identifier.
pub fn account_name_for_sid(size_status: OsStatus, found: &Result<AccountFacts, PlatformError>) -> (name:
    Result<String, PlatformError>)
    ensures
        text_model(name) == account_name(size_status, *found),
{
    match require_size(size_status) {
        Ok(()) => {},
        Err(failure) => {
            return Err(failure);
        },
    }
    match found {
        Err(failure) => Err(*failure),
        Ok(account) => match validate_worker_sid_name_use(account.kind) {
            Err(failure) => Err(failure),
            Ok(()) => read_text(
                until_terminator(&account.name),
                "Windows returned a non-UTF-16 account name",
            ),
        },
    }
}

// ---------------------------------------------------------------------------
// Tokens
// ---------------------------------------------------------------------------

/// What was read of a token: the answer to the query for its size, how much was
/// offered, and how much is there then.
#[derive(Clone, Copy, Debug)]
pub struct TokenRead {
    pub size_succeeded: bool,
    pub required: u32,
    pub size_status: OsStatus,
    pub filled: Result<(), PlatformError>,
    pub capacity: usize,
    pub length: u32,
}

/// How many bytes were read of a token.
pub open spec fn token_read(read: TokenRead) -> Result<u32, PlatformError> {
    match windows_token::information_size(read.size_succeeded, read.required, read.size_status) {
        Err(failure) => Err(failure),
        Ok(_) => if read.capacity > u32::MAX {
            Err(error::malformed("Windows token information is too large"))
        } else {
            match read.filled {
                Err(failure) => Err(failure),
                Ok(()) => if read.length > read.capacity {
                    Err(error::malformed("Windows token information grew while it was read"))
                } else {
                    Ok(read.length)
                },
            }
        },
    }
}

/// Judges what was read of a token.
pub fn token_information(read: &TokenRead) -> (result: Result<u32, PlatformError>)
    ensures
        result == token_read(*read),
{
    match token_information_size(read.size_succeeded, read.required, read.size_status) {
        Ok(_) => {},
        Err(failure) => {
            return Err(failure);
        },
    }
    if read.capacity as u64 > u32::MAX as u64 {
        return Err(invalid_data("Windows token information is too large"));
    }
    match read.filled {
        Ok(()) => {},
        Err(failure) => {
            return Err(failure);
        },
    }
    if read.length as usize > read.capacity {
        return Err(invalid_data("Windows token information grew while it was read"));
    }
    Ok(read.length)
}

/// Finds the identifier of a token's user. `needed` is the size of what describes
/// a user.
pub fn token_user_sid(read: &TokenRead, needed: u32, user: Option<SidCopy>) -> (sid: Result<
    Vec<u8>,
    PlatformError,
>)
    ensures
        sid_model(sid) == (match token_read(*read) {
            Err(failure) => Err(failure),
            Ok(length) => if length < needed {
                Err(error::malformed("Windows token user information is truncated"))
            } else {
                match user {
                    None => Err(error::malformed("Windows token contains a null user SID")),
                    Some(copy) => copied_sid(copy),
                }
            },
        }),
{
    match token_information(read) {
        Err(failure) => Err(failure),
        Ok(length) => {
            if length < needed {
                return Err(invalid_data("Windows token user information is truncated"));
            }
            match user {
                None => Err(invalid_data("Windows token contains a null user SID")),
                Some(copy) => take_copy(copy),
            }
        },
    }
}

// ---------------------------------------------------------------------------
// Principals
// ---------------------------------------------------------------------------

/// What is found to be a principal: its identifier and its name, where both are
/// known and acceptable.
pub open spec fn found_principal(
    id: Result<String, PlatformError>,
    name: Result<String, PlatformError>,
    account_policy: WorkerAccountPolicy,
) -> Result<PrincipalModel, PlatformError> {
    match id {
        Err(failure) => Err(failure),
        Ok(id) => match name {
            Err(failure) => Err(failure),
            Ok(name) => match principal::principal_verdict(
                PrincipalKind::WindowsSid,
                id@,
                name@,
            ) {
                Err(failure) => Err(failure),
                Ok(()) => Ok(
                    PrincipalModel {
                        kind: PrincipalKind::WindowsSid,
                        id: id@,
                        name: name@,
                        policy: account_policy,
                    },
                ),
            },
        },
    }
}

/// What a principal is.
pub open spec fn principal_model(found: Result<WorkerPrincipal, PlatformError>) -> Result<
    PrincipalModel,
    PlatformError,
> {
    match found {
        Ok(found) => Ok(found@),
        Err(failure) => Err(failure),
    }
}

/// Makes a principal of an identifier and the name that it has.
pub fn principal_for_sid(
    id: Result<String, PlatformError>,
    name: Result<String, PlatformError>,
    account_policy: WorkerAccountPolicy,
) -> (found: Result<WorkerPrincipal, PlatformError>)
    ensures
        principal_model(found) == found_principal(id, name, account_policy),
{
    match id {
        Err(failure) => Err(failure),
        Ok(id) => match name {
            Err(failure) => Err(failure),
            Ok(name) => WorkerPrincipal::new(
                PrincipalKind::WindowsSid,
                id.as_str(),
                name.as_str(),
                account_policy,
            ),
        },
    }
}

/// Makes the principal of the current user.
pub fn resolve_current_worker_principal(
    sid: Result<(), PlatformError>,
    id: Result<String, PlatformError>,
    name: Result<String, PlatformError>,
) -> (found: Result<WorkerPrincipal, PlatformError>)
    ensures
        principal_model(found) == (match sid {
            Err(failure) => Err(failure),
            Ok(()) => found_principal(id, name, WorkerAccountPolicy::CurrentUser),
        }),
{
    match sid {
        Err(failure) => Err(failure),
        Ok(()) => principal_for_sid(id, name, WorkerAccountPolicy::CurrentUser),
    }
}

/// The identifier of a principal, which must be one of Windows: `converted` is
/// what came of reading it, `copy` of copying it.
pub fn principal_sid(
    principal: &WorkerPrincipal,
    converted: Result<(), PlatformError>,
    copy: SidCopy,
) -> (sid: Result<Vec<u8>, PlatformError>)
    ensures
        sid_model(sid) == (if principal@.kind != PrincipalKind::WindowsSid {
            Err(error::malformed("worker principal kind does not match Windows"))
        } else {
            match converted {
                Err(failure) => Err(failure),
                Ok(()) => copied_sid(copy),
            }
        }),
{
    match principal.principal_kind() {
        PrincipalKind::WindowsSid => {},
        _ => {
            return Err(invalid_data("worker principal kind does not match Windows"));
        },
    }
    match converted {
        Err(failure) => Err(failure),
        Ok(()) => take_copy(copy),
    }
}

// ---------------------------------------------------------------------------
// Folders
// ---------------------------------------------------------------------------

/// A folder that the system knows for the current user.
#[derive(Clone, Copy, Debug, PartialEq, Eq, Structural)]
pub enum KnownFolder {
    LocalAppData,
    Profile,
}

/// The longest path of a folder that is read, with its terminator.
pub const MAX_FOLDER_UNITS: usize = 32768;

/// What the system answered for a folder: a status, the units that it returned,
/// where it did, read no further than the longest path, and whether they are an
/// absolute path.
#[derive(Debug)]
pub struct KnownFolderAnswer {
    pub status: i32,
    pub units: Option<Vec<u16>>,
    pub is_absolute: bool,
}

/// Why a folder is not known.
pub open spec fn unknown_folder(folder: KnownFolder) -> PlatformError {
    PlatformError::Policy {
        kind: ErrorKind::Other,
        message: match folder {
            KnownFolder::LocalAppData => "Windows could not resolve the current LocalAppData folder",
            KnownFolder::Profile => "Windows could not resolve the current profile folder",
        },
    }
}

/// The path of a folder that the system knows.
pub open spec fn known_folder(folder: KnownFolder, answer: KnownFolderAnswer) -> Result<
    Seq<u16>,
    PlatformError,
> {
    match answer.units {
        Some(units) if answer.status >= 0 => if scan::until(units@, 0u16) >= MAX_FOLDER_UNITS {
            Err(error::malformed("Windows known-folder path is not terminated"))
        } else if !answer.is_absolute {
            Err(error::malformed("Windows known-folder path is not absolute"))
        } else {
            Ok(terminated(units@))
        },
        _ => Err(unknown_folder(folder)),
    }
}

/// What a path is.
pub open spec fn units_model(units: Result<Vec<u16>, PlatformError>) -> Result<
    Seq<u16>,
    PlatformError,
> {
    match units {
        Ok(units) => Ok(units@),
        Err(failure) => Err(failure),
    }
}

/// Reads the path of a folder that the system knows.
pub fn current_known_folder(folder: KnownFolder, answer: &KnownFolderAnswer) -> (path: Result<
    Vec<u16>,
    PlatformError,
>)
    ensures
        units_model(path) == known_folder(folder, *answer),
{
    let unknown = PlatformError::Policy {
        kind: ErrorKind::Other,
        message: match folder {
            KnownFolder::LocalAppData => "Windows could not resolve the current LocalAppData folder",
            KnownFolder::Profile => "Windows could not resolve the current profile folder",
        },
    };
    if answer.status < 0 {
        return Err(unknown);
    }
    match &answer.units {
        None => Err(unknown),
        Some(units) => {
            let text = until_terminator(units);
            proof {
                scan::lemma_until(units@, 0u16);
            }
            if text.len() >= MAX_FOLDER_UNITS {
                return Err(invalid_data("Windows known-folder path is not terminated"));
            }
            if !answer.is_absolute {
                return Err(invalid_data("Windows known-folder path is not absolute"));
            }
            Ok(slice_to_vec(text))
        },
    }
}

/// The folder of the current user's own data.
pub fn current_local_app_data(answer: &KnownFolderAnswer) -> (path: Result<
    Vec<u16>,
    PlatformError,
>)
    ensures
        units_model(path) == known_folder(KnownFolder::LocalAppData, *answer),
{
    current_known_folder(KnownFolder::LocalAppData, answer)
}

/// The folder of the current user's profile.
pub fn current_profile_directory(answer: &KnownFolderAnswer) -> (path: Result<
    Vec<u16>,
    PlatformError,
>)
    ensures
        units_model(path) == known_folder(KnownFolder::Profile, *answer),
{
    current_known_folder(KnownFolder::Profile, answer)
}

/// Where the profiles of all users are, from the answers to a query for the size
/// and to one for the path.
pub fn profiles_directory(
    size: u32,
    size_status: OsStatus,
    filled: Result<(), PlatformError>,
    buffer: &[u16],
) -> (path: Result<Vec<u16>, PlatformError>)
    ensures
        units_model(path) == (if size == 0 || size_status.code != ERROR_INSUFFICIENT_BUFFER {
            Err(size_status.failed())
        } else {
            match filled {
                Err(failure) => Err(failure),
                Ok(()) => Ok(terminated(buffer@)),
            }
        }),
{
    if size == 0 || size_status.code != ERROR_INSUFFICIENT_BUFFER {
        return Err(size_status.failure());
    }
    match filled {
        Err(failure) => Err(failure),
        Ok(()) => Ok(slice_to_vec(until_terminator(buffer))),
    }
}

/// The system's own directory: `length` units were written into `buffer`, where
/// that is not too little and not too much.
pub fn baseline_system_directory(length: usize, buffer: &[u16], failure: PlatformError) -> (path:
    Result<Vec<u16>, PlatformError>)
    ensures
        units_model(path) == (if length == 0 || length >= buffer@.len() {
            Err(failure)
        } else {
            Ok(buffer@.take(length as int))
        }),
{
    if length == 0 || length >= buffer.len() {
        return Err(failure);
    }
    let written = slice_subrange(buffer, 0, length);
    assert(written@ =~= buffer@.take(length as int));
    Ok(slice_to_vec(written))
}

} // verus!
