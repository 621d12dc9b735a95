//! The error type that every rule of this library refuses with.

use crate::number;
use crate::number::numbered;
use vstd::prelude::*;

verus! {

/// The class of a failure, as the operating system or a rule assigns it.
#[derive(Clone, Copy, Debug, PartialEq, Eq, Structural)]
pub enum ErrorKind {
    NotFound,
    PermissionDenied,
    AlreadyExists,
    InvalidInput,
    InvalidData,
    Unsupported,
    Other,
}

/// Why an operation did not happen.
#[derive(Clone, Copy, Debug, PartialEq, Eq)]
pub enum PlatformError {
    /// A rule refused the state it was shown.
    Policy { kind: ErrorKind, message: &'static str },
    /// A rule refused, and what it says holds a number.
    Counted { kind: ErrorKind, before: &'static str, count: usize, after: &'static str },
    /// The operating system reported a failure.
    Native { kind: ErrorKind, code: Option<i32> },
}

/// A status of the operating system: its code, and the class that the system
/// gives a failure with this code.
#[derive(Clone, Copy, Debug, PartialEq, Eq, Structural)]
pub struct OsStatus {
    pub code: i32,
    pub kind: ErrorKind,
}

impl OsStatus {
    /// The failure with this status.
    pub open spec fn failed(self) -> PlatformError {
        PlatformError::Native { kind: self.kind, code: Some(self.code) }
    }

    /// The failure with this status.
    pub fn failure(self) -> (failure: PlatformError)
        ensures
            failure == self.failed(),
    {
        PlatformError::Native { kind: self.kind, code: Some(self.code) }
    }
}

impl PlatformError {
    /// The class of the failure.
    pub open spec fn spec_kind(self) -> ErrorKind {
        match self {
            PlatformError::Policy { kind, .. } => kind,
            PlatformError::Counted { kind, .. } => kind,
            PlatformError::Native { kind, .. } => kind,
        }
    }

    /// The class of the failure.
    pub fn kind(&self) -> (kind: ErrorKind)
        ensures
            kind == self.spec_kind(),
    {
        match self {
            PlatformError::Policy { kind, .. } => *kind,
            PlatformError::Counted { kind, .. } => *kind,
            PlatformError::Native { kind, .. } => *kind,
        }
    }

    /// The status code of the operating system, where one was reported.
    pub fn raw_os_error(&self) -> (code: Option<i32>)
        ensures
            code == native_code(*self),
    {
        match self {
            PlatformError::Policy { .. } => None,
            PlatformError::Counted { .. } => None,
            PlatformError::Native { code, .. } => *code,
        }
    }

    /// What the rule says that refused. What the operating system says of its
    /// own failures is not known here.
    pub fn message(&self) -> (message: Option<String>)
        ensures
            match *self {
                PlatformError::Policy { message: said, .. } => message matches Some(message)
                    && message@ == said@,
                PlatformError::Counted { before, count, after, .. } => message matches Some(message)
                    && message@ == before@ + number::decimal(count as nat) + after@,
                PlatformError::Native { .. } => message is None,
            },
    {
        match self {
            PlatformError::Policy { message, .. } => Some((*message).to_owned()),
            PlatformError::Counted { before, count, after, .. } => Some(
                numbered(before, *count as u64).concat(after),
            ),
            PlatformError::Native { .. } => None,
        }
    }
}

/// A refusal because the observed state would be unsafe to act on.
pub fn permission_denied(message: &'static str) -> (error: PlatformError)
    ensures
        error == denied(message),
{
    PlatformError::Policy { kind: ErrorKind::PermissionDenied, message }
}

/// A refusal because data did not have the shape it must have.
pub fn invalid_data(message: &'static str) -> (error: PlatformError)
    ensures
        error == malformed(message),
{
    PlatformError::Policy { kind: ErrorKind::InvalidData, message }
}

/// The refusal that `permission_denied` returns.
pub open spec fn denied(message: &'static str) -> PlatformError {
    PlatformError::Policy { kind: ErrorKind::PermissionDenied, message }
}

/// The refusal that `invalid_data` returns.
pub open spec fn malformed(message: &'static str) -> PlatformError {
    PlatformError::Policy { kind: ErrorKind::InvalidData, message }
}

/// The refusal of an argument.
pub open spec fn bad_input(message: &'static str) -> PlatformError {
    PlatformError::Policy { kind: ErrorKind::InvalidInput, message }
}

/// The number that the operating system gave a failure, where it did.
pub open spec fn native_code(failure: PlatformError) -> Option<i32> {
    match failure {
        PlatformError::Policy { .. } => None,
        PlatformError::Counted { .. } => None,
        PlatformError::Native { code, .. } => code,
    }
}

/// What a sequence of checks comes to: the first refusal, where there is one.
pub open spec fn first_refusal(checks: Seq<Result<(), PlatformError>>) -> Result<(), PlatformError>
    decreases checks.len(),
{
    if checks.len() == 0 {
        Ok(())
    } else if checks[0] is Err {
        checks[0]
    } else {
        first_refusal(checks.drop_first())
    }
}

/// The first refusal among `checks`, where there is one.
pub fn require_all(checks: &[Result<(), PlatformError>]) -> (result: Result<(), PlatformError>)
    ensures
        result == first_refusal(checks@),
{
    assert(checks@.skip(0) =~= checks@);
    for i in 0..checks.len()
        invariant
            first_refusal(checks@) == first_refusal(checks@.skip(i as int)),
    {
        assert(checks@.skip(i as int)[0] == checks@[i as int]);
        assert(checks@.skip(i as int).drop_first() =~= checks@.skip(i + 1));
        match checks[i] {
            Ok(()) => {},
            Err(refusal) => {
                return Err(refusal);
            },
        }
    }
    Ok(())
}

/// All checks passed exactly where none of them refused.
pub proof fn all_checks_must_pass(checks: Seq<Result<(), PlatformError>>)
    ensures
        first_refusal(checks) is Ok <==> forall|i: int|
            0 <= i < checks.len() ==> (#[trigger] checks[i]) is Ok,
    decreases checks.len(),
{
    if checks.len() > 0 {
        let rest = checks.drop_first();
        all_checks_must_pass(rest);
        if forall|i: int| 0 <= i < checks.len() ==> (#[trigger] checks[i]) is Ok {
            assert forall|i: int| 0 <= i < rest.len() implies (#[trigger] rest[i]) is Ok by {
                assert(rest[i] == checks[i + 1]);
            }
        }
        if first_refusal(checks) is Ok {
            assert forall|i: int| 0 <= i < checks.len() implies (#[trigger] checks[i]) is Ok by {
                if i > 0 {
                    assert(checks[i] == rest[i - 1]);
                }
            }
        }
    }
}

} // verus!
