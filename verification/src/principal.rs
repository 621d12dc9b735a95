//! Stable native account identities.

use crate::error;
use crate::error::{ErrorKind, PlatformError};
use crate::number;
use crate::number::{is_decimal_of, parse_unsigned};
use crate::scan;
use crate::scan::{split_chars, strip_prefix, trimmed};
use crate::text;
use crate::text::{chars_of, contains_control, holds_char, len_in_bytes, same_chars, same_text};
use vstd::prelude::*;

verus! {

/// The longest account name, in bytes.
pub const MAX_PRINCIPAL_NAME_BYTES: usize = 256;

/// The largest identifier authority of a SID.
pub const MAX_SID_AUTHORITY: u64 = 0xffff_ffff_ffff;

/// Which native identifier names the account.
#[derive(Clone, Copy, Debug, Hash, PartialEq, Eq, Structural)]
pub enum PrincipalKind {
    UnixUid,
    WindowsSid,
}

/// Whose account a worker runs under.
#[derive(Clone, Copy, Debug, Hash, PartialEq, Eq, Structural)]
pub enum WorkerAccountPolicy {
    CurrentUser,
    Dedicated,
}

/// What separates a worker from the user.
#[derive(Clone, Copy, Debug, PartialEq, Eq, Structural)]
pub enum WorkerIsolation {
    SharedUser,
    DedicatedAccount,
}

/// The refusal of a native identity.
pub fn invalid_principal(message: &'static str) -> (refusal: PlatformError)
    ensures
        refusal == error::bad_input(message),
{
    PlatformError::Policy { kind: ErrorKind::InvalidInput, message }
}

// ---------------------------------------------------------------------------
// Identifiers
// ---------------------------------------------------------------------------

/// The number that `value` is the canonical decimal text of.
pub open spec fn canonical(value: Seq<char>, maximum: u64) -> Result<u64, PlatformError> {
    match number::unsigned(value, 10, u64::MAX as nat) {
        None => Err(error::bad_input("native principal identifier is not decimal")),
        Some(n) => if n > maximum || number::decimal(n) != value {
            Err(error::bad_input("native principal identifier is not canonical"))
        } else {
            Ok(n as u64)
        },
    }
}

fn canonical_number(value: &[char], maximum: u64) -> (result: Result<u64, PlatformError>)
    ensures
        result == canonical(value@, maximum),
{
    match parse_unsigned(value, 10, u64::MAX) {
        None => Err(invalid_principal("native principal identifier is not decimal")),
        Some(n) => if n > maximum || !is_decimal_of(value, n) {
            Err(invalid_principal("native principal identifier is not canonical"))
        } else {
            Ok(n)
        },
    }
}

/// The number that `value` is the canonical decimal text of.
pub fn canonical_decimal(value: &str, maximum: u64) -> (result: Result<u64, PlatformError>)
    ensures
        result == canonical(value@, maximum),
{
    canonical_number(&chars_of(value), maximum)
}

/// Whether `value` is a user id: canonical, and not root's.
pub open spec fn unix_uid_verdict(value: Seq<char>) -> Result<(), PlatformError> {
    match number::unsigned(value, 10, u32::MAX as nat) {
        None => Err(error::bad_input("worker uid must be canonical decimal u32 text")),
        Some(uid) => if uid == 0 || number::decimal(uid) != value {
            Err(error::bad_input("worker uid must be canonical non-root decimal text"))
        } else {
            Ok(())
        },
    }
}

/// Checks a user id.
pub fn validate_unix_uid(value: &str) -> (result: Result<(), PlatformError>)
    ensures
        result == unix_uid_verdict(value@),
{
    let chars = chars_of(value);
    match parse_unsigned(&chars, 10, u32::MAX as u64) {
        None => Err(invalid_principal("worker uid must be canonical decimal u32 text")),
        Some(uid) => if uid == 0 || !is_decimal_of(&chars, uid) {
            Err(invalid_principal("worker uid must be canonical non-root decimal text"))
        } else {
            Ok(())
        },
    }
}

/// The verdict on the sub-authorities: the first that is refused decides.
pub open spec fn sub_authorities_verdict(components: Seq<Seq<char>>) -> Result<(), PlatformError>
    decreases components.len(),
{
    if components.len() == 0 {
        Ok(())
    } else {
        match canonical(components[0], u32::MAX as u64) {
            Err(refusal) => Err(refusal),
            Ok(_) => sub_authorities_verdict(components.drop_first()),
        }
    }
}

/// Whether `value` is the canonical text of a SID that can be a worker's.
pub open spec fn windows_sid_verdict(value: Seq<char>) -> Result<(), PlatformError> {
    let components = scan::split_on(value.skip("S-1-"@.len() as int), '-');
    if !scan::begins_with(value, "S-1-"@) {
        Err(error::bad_input("worker SID must use canonical S-1 text"))
    } else if !(2 <= components.len() <= 16) {
        Err(error::bad_input("worker SID has an invalid component count"))
    } else {
        match canonical(components[0], u64::MAX) {
            Err(refusal) => Err(refusal),
            Ok(authority) => if authority > MAX_SID_AUTHORITY {
                Err(error::bad_input("worker SID authority is out of range"))
            } else {
                match sub_authorities_verdict(components.drop_first()) {
                    Err(refusal) => Err(refusal),
                    Ok(()) => if value == "S-1-5-18"@ {
                        Err(error::bad_input("SYSTEM cannot be a worker principal"))
                    } else {
                        Ok(())
                    },
                }
            },
        }
    }
}

/// Checks a SID.
pub fn validate_windows_sid(value: &str) -> (result: Result<(), PlatformError>)
    ensures
        result == windows_sid_verdict(value@),
{
    let chars = chars_of(value);
    let rest = match strip_prefix(&chars, "S-1-") {
        Some(rest) => rest,
        None => {
            return Err(invalid_principal("worker SID must use canonical S-1 text"));
        },
    };
    let components = split_chars(rest, '-');
    if !(2 <= components.len() && components.len() <= 16) {
        return Err(invalid_principal("worker SID has an invalid component count"));
    }
    let ghost pieces = scan::split_on(rest@, '-');
    assert(components@[0]@ == pieces[0]);
    let authority = match canonical_number(&components[0], u64::MAX) {
        Ok(authority) => authority,
        Err(refusal) => {
            return Err(refusal);
        },
    };
    if authority > MAX_SID_AUTHORITY {
        return Err(invalid_principal("worker SID authority is out of range"));
    }
    let ghost subs = pieces.drop_first();
    assert(subs.skip(0) == subs);
    for i in 1..components.len()
        invariant
            1 <= i <= components@.len(),
            components@.len() == pieces.len(),
            forall|j: int| 0 <= j < components@.len() ==> (#[trigger] components@[j])@ == pieces[j],
            subs == pieces.drop_first(),
            sub_authorities_verdict(subs) is Err ==> windows_sid_verdict(value@)
                == sub_authorities_verdict(subs),
            sub_authorities_verdict(subs.skip(i - 1)) == sub_authorities_verdict(subs),
    {
        assert(components@[i as int]@ == subs.skip(i - 1)[0]);
        assert(subs.skip(i - 1).drop_first() == subs.skip(i as int));
        match canonical_number(&components[i], u32::MAX as u64) {
            Ok(_) => {},
            Err(refusal) => {
                proof {
                    assert(sub_authorities_verdict(subs) == Err::<(), PlatformError>(refusal));
                }
                return Err(refusal);
            },
        }
    }
    assert(subs.skip(subs.len() as int).len() == 0);
    if same_text(value, "S-1-5-18") {
        return Err(invalid_principal("SYSTEM cannot be a worker principal"));
    }
    Ok(())
}

/// The verdict on an account name.
pub open spec fn principal_name_verdict(value: Seq<char>) -> Result<(), PlatformError> {
    if value.len() == 0 || text::byte_len(value) > MAX_PRINCIPAL_NAME_BYTES || scan::trim(value)
        != value || text::has_control(value) {
        Err(error::bad_input("worker account name is invalid"))
    } else if value.contains('\\') || value.contains('/') || value.contains(':') {
        Err(error::bad_input("worker account name is ambiguous"))
    } else {
        Ok(())
    }
}

/// Checks an account name.
///
/// The native identifier is the authority, so directory services may use names
/// outside the traditional login-name grammar. Refused are only names that are
/// ambiguous where they are stored or shown.
pub fn validate_principal_name(_kind: PrincipalKind, value: &str) -> (result: Result<
    (),
    PlatformError,
>)
    ensures
        result == principal_name_verdict(value@),
{
    let chars = chars_of(value);
    if chars.len() == 0 || len_in_bytes(value) > MAX_PRINCIPAL_NAME_BYTES || !same_chars(
        trimmed(&chars),
        &chars,
    ) || contains_control(&chars) {
        return Err(invalid_principal("worker account name is invalid"));
    }
    if holds_char(&chars, '\\') || holds_char(&chars, '/') || holds_char(&chars, ':') {
        return Err(invalid_principal("worker account name is ambiguous"));
    }
    Ok(())
}

// ---------------------------------------------------------------------------
// Principals
// ---------------------------------------------------------------------------

/// A validated, stable native account identity.
#[derive(Debug, Hash, Eq, PartialEq)]
pub struct WorkerPrincipal {
    principal_kind: PrincipalKind,
    principal_id: String,
    name: String,
    account_policy: WorkerAccountPolicy,
}

/// What a principal is, without its representation.
pub struct PrincipalModel {
    pub kind: PrincipalKind,
    pub id: Seq<char>,
    pub name: Seq<char>,
    pub policy: WorkerAccountPolicy,
}

/// The verdict on the parts of a principal: first the name, then the
/// identifier of its kind.
pub open spec fn principal_verdict(kind: PrincipalKind, id: Seq<char>, name: Seq<char>) -> Result<
    (),
    PlatformError,
> {
    match principal_name_verdict(name) {
        Err(refusal) => Err(refusal),
        Ok(()) => match kind {
            PrincipalKind::UnixUid => unix_uid_verdict(id),
            PrincipalKind::WindowsSid => windows_sid_verdict(id),
        },
    }
}

/// Whether a principal can exist.
pub open spec fn valid_principal(model: PrincipalModel) -> bool {
    principal_verdict(model.kind, model.id, model.name) is Ok
}

impl View for WorkerPrincipal {
    type V = PrincipalModel;

    closed spec fn view(&self) -> PrincipalModel {
        PrincipalModel {
            kind: self.principal_kind,
            id: self.principal_id@,
            name: self.name@,
            policy: self.account_policy,
        }
    }
}

impl WorkerPrincipal {
    #[verifier::type_invariant]
    spec fn is_valid(self) -> bool {
        valid_principal(self@)
    }

    /// A principal, where the name and the identifier are acceptable.
    pub fn new(
        principal_kind: PrincipalKind,
        principal_id: &str,
        name: &str,
        account_policy: WorkerAccountPolicy,
    ) -> (result: Result<Self, PlatformError>)
        ensures
            match result {
                Ok(principal) => {
                    &&& principal_verdict(principal_kind, principal_id@, name@) is Ok
                    &&& principal@ == (PrincipalModel {
                        kind: principal_kind,
                        id: principal_id@,
                        name: name@,
                        policy: account_policy,
                    })
                },
                Err(refusal) => principal_verdict(principal_kind, principal_id@, name@) == Err::<
                    (),
                    PlatformError,
                >(refusal),
            },
    {
        match validate_principal_name(principal_kind, name) {
            Ok(()) => {},
            Err(refusal) => {
                return Err(refusal);
            },
        }
        let verdict = match principal_kind {
            PrincipalKind::UnixUid => validate_unix_uid(principal_id),
            PrincipalKind::WindowsSid => validate_windows_sid(principal_id),
        };
        match verdict {
            Ok(()) => Ok(
                WorkerPrincipal {
                    principal_kind,
                    principal_id: principal_id.to_owned(),
                    name: name.to_owned(),
                    account_policy,
                },
            ),
            Err(refusal) => Err(refusal),
        }
    }

    /// Which native identifier names the account.
    pub fn principal_kind(&self) -> (kind: PrincipalKind)
        ensures
            kind == self@.kind,
    {
        self.principal_kind
    }

    /// The native identifier.
    pub fn principal_id(&self) -> (id: &str)
        ensures
            id@ == self@.id,
    {
        self.principal_id.as_str()
    }

    /// The account name.
    pub fn name(&self) -> (name: &str)
        ensures
            name@ == self@.name,
    {
        self.name.as_str()
    }

    /// Whose account it is.
    pub fn account_policy(&self) -> (policy: WorkerAccountPolicy)
        ensures
            policy == self@.policy,
    {
        self.account_policy
    }

    /// What separates a worker under this account from the user.
    pub fn isolation(&self) -> (isolation: WorkerIsolation)
        ensures
            isolation == (match self@.policy {
                WorkerAccountPolicy::CurrentUser => WorkerIsolation::SharedUser,
                WorkerAccountPolicy::Dedicated => WorkerIsolation::DedicatedAccount,
            }),
    {
        match self.account_policy {
            WorkerAccountPolicy::CurrentUser => WorkerIsolation::SharedUser,
            WorkerAccountPolicy::Dedicated => WorkerIsolation::DedicatedAccount,
        }
    }

    /// The user id of a Unix account; every such account has one, and it is
    /// never root's.
    pub fn unix_uid(&self) -> (result: Result<u32, PlatformError>)
        ensures
            match result {
                Ok(uid) => self@.kind == PrincipalKind::UnixUid && self@.id == number::decimal(
                    uid as nat,
                ) && uid != 0,
                Err(refusal) => self@.kind == PrincipalKind::WindowsSid && refusal
                    == error::bad_input("worker principal is not a Unix uid"),
            },
    {
        proof {
            use_type_invariant(self);
        }
        match self.principal_kind {
            PrincipalKind::WindowsSid => Err(
                invalid_principal("worker principal is not a Unix uid"),
            ),
            PrincipalKind::UnixUid => {
                let chars = chars_of(self.principal_id.as_str());
                match parse_unsigned(&chars, 10, u32::MAX as u64) {
                    Some(uid) => Ok(uid as u32),
                    None => Err(invalid_principal("worker uid is invalid")),
                }
            },
        }
    }

    /// Whether two principals are the same in every part.
    pub fn same_as(&self, other: &WorkerPrincipal) -> (same: bool)
        ensures
            same == (self@ == other@),
    {
        self.principal_kind == other.principal_kind && self.account_policy == other.account_policy
            && same_text(self.principal_id.as_str(), other.principal_id.as_str()) && same_text(
            self.name.as_str(),
            other.name.as_str(),
        )
    }
}

impl Clone for WorkerPrincipal {
    fn clone(&self) -> (copied: Self)
        ensures
            copied@ == self@,
    {
        proof {
            use_type_invariant(self);
        }
        WorkerPrincipal {
            principal_kind: self.principal_kind,
            principal_id: self.principal_id.clone(),
            name: self.name.clone(),
            account_policy: self.account_policy,
        }
    }
}

/// Two Unix accounts with the same user id have the same identifier text, so
/// the identifier decides authorization and not the name.
pub proof fn unix_identifier_is_unique(left: PrincipalModel, right: PrincipalModel, uid: nat)
    requires
        left.kind == PrincipalKind::UnixUid,
        right.kind == PrincipalKind::UnixUid,
        valid_principal(left),
        valid_principal(right),
        number::unsigned(left.id, 10, u32::MAX as nat) == Some(uid),
        number::unsigned(right.id, 10, u32::MAX as nat) == Some(uid),
    ensures
        left.id == right.id,
{
}

/// No principal is root or SYSTEM.
pub proof fn privileged_accounts_are_no_principals(model: PrincipalModel)
    requires
        valid_principal(model),
    ensures
        model.kind == PrincipalKind::UnixUid ==> model.id != number::decimal(0),
        model.kind == PrincipalKind::WindowsSid ==> model.id != "S-1-5-18"@,
{
    number::lemma_decimal_value(0);
    if model.kind == PrincipalKind::UnixUid {
        if model.id == number::decimal(0) {
            number::decimal_round_trip(0, u32::MAX as nat);
        }
    }
}

} // verus!
