//! The worker protocol as a controller speaks it.

use crate::frame;
use crate::frame::{DiagnosticModel, FrameError, FrameErrorKind, RpcDiagnostic, ServerHello};
use crate::machine_id;
use crate::machine_id::is_version_seven;
use crate::number;
use crate::number::numbered;
use crate::text;
use crate::text::{chars_of, contains_control, len_in_bytes, optional_is, same_text};
use std::ops::RangeInclusive;
use vstd::prelude::*;

verus! {

/// The oldest protocol that this library speaks.
pub const PROTOCOL_MIN: u32 = 1;

/// The newest protocol that this library speaks.
pub const PROTOCOL_MAX: u32 = 1;

/// The manifest schema that this library reads.
pub const MANIFEST_SCHEMA_VERSION: u64 = 1;

/// The most arguments of a command.
pub const MAX_EXEC_ARGUMENTS: usize = 256;

/// The most bytes of one argument.
pub const MAX_EXEC_ARGUMENT_BYTES: usize = 32 * 1024;

/// The most bytes of all arguments.
pub const MAX_EXEC_TOTAL_BYTES: usize = 256 * 1024;

/// The most bytes of a command's output, of each stream.
pub const MAX_EXEC_CAPTURE_BYTES: usize = 1024 * 1024;

/// The most bytes of a controller's public key.
pub const MAX_PUBLIC_KEY_BYTES: usize = 16 * 1024;

/// What stands for output that was shaped like a secret.
pub const REDACTED_OUTPUT: &'static str = "[redacted secret-shaped output]";

/// How a worker reports that it could not do what was asked.
pub const REMOTE_EXECUTION_FAILED_MESSAGE: &'static str =
    "the worker could not complete the RPC method";

// ---------------------------------------------------------------------------
// Errors
// ---------------------------------------------------------------------------

/// What kind of failure a session ends with.
#[derive(Clone, Copy, Debug, PartialEq, Eq, Structural)]
pub enum ErrorCode {
    ProtocolIncompatible,
    ProtocolMalformed,
    TransportSessionLost,
    UsageInvalidArgument,
    MachineManifestInvalid,
    RemoteExecutionFailed,
}

/// The texts that stand for failures in diagnostics.
#[derive(Debug)]
pub struct ErrorCodeNames {
    pub protocol_incompatible: String,
    pub protocol_malformed: String,
    pub remote_execution_failed: String,
}

/// A failure of a session.
#[derive(Clone, Copy, Debug, PartialEq, Eq)]
pub struct RpcError {
    pub code: ErrorCode,
    pub message: &'static str,
}

/// A peer that does not keep to the protocol.
pub open spec fn malformed(message: &'static str) -> RpcError {
    RpcError { code: ErrorCode::ProtocolMalformed, message }
}

/// A session that ended.
pub open spec fn lost(message: &'static str) -> RpcError {
    RpcError { code: ErrorCode::TransportSessionLost, message }
}

/// What a frame that was not read or written means for the session.
pub open spec fn frame_failure(error: FrameError) -> RpcError {
    RpcError {
        code: if error.kind == FrameErrorKind::Io {
            ErrorCode::TransportSessionLost
        } else {
            ErrorCode::ProtocolMalformed
        },
        message: "the RPC session could not read or write a valid frame",
    }
}

/// The exit status of a program whose session was lost.
pub const SESSION_LOST_EXIT: i32 = 3;

impl RpcError {
    /// A failure with its message.
    pub fn new(code: ErrorCode, message: &'static str) -> (error: Self)
        ensures
            error == (RpcError { code, message }),
    {
        RpcError { code, message }
    }

    /// The failure to read or write a frame.
    pub fn frame(error: FrameError) -> (failure: Self)
        ensures
            failure == frame_failure(error),
    {
        let code = if error.kind() == FrameErrorKind::Io {
            ErrorCode::TransportSessionLost
        } else {
            ErrorCode::ProtocolMalformed
        };
        RpcError::new(code, "the RPC session could not read or write a valid frame")
    }

    /// A peer that does not keep to the protocol.
    pub fn malformed(message: &'static str) -> (error: Self)
        ensures
            error == malformed(message),
    {
        RpcError::new(ErrorCode::ProtocolMalformed, message)
    }

    /// What kind of failure this is.
    pub fn code(&self) -> (code: ErrorCode)
        ensures
            code == self.code,
    {
        self.code
    }

    /// The exit status of a program that ends with this failure, where this
    /// library fixes one.
    pub fn exit_code(&self) -> (status: Option<i32>)
        ensures
            status == if self.code == ErrorCode::TransportSessionLost {
                Some(SESSION_LOST_EXIT)
            } else {
                None
            },
    {
        match self.code {
            ErrorCode::TransportSessionLost => Some(SESSION_LOST_EXIT),
            _ => None,
        }
    }
}

// ---------------------------------------------------------------------------
// Negotiation
// ---------------------------------------------------------------------------

/// `RangeInclusive::start`: the lower bound of a range that no iteration has
/// used up. What it is of another is unspecified.
pub assume_specification<Idx>[ std::ops::RangeInclusive::<Idx>::start ](
    range: &std::ops::RangeInclusive<Idx>,
) -> (bound: &Idx)
    ensures
        !range@.exhausted ==> *bound == range@.start,
;

/// `RangeInclusive::end`: the upper bound of a range that no iteration has used
/// up. What it is of another is unspecified.
pub assume_specification<Idx>[ std::ops::RangeInclusive::<Idx>::end ](
    range: &std::ops::RangeInclusive<Idx>,
) -> (bound: &Idx)
    ensures
        !range@.exhausted ==> *bound == range@.end,
;

/// Whether a version lies in both ranges.
pub open spec fn common(ours: (u32, u32), theirs: (u32, u32), version: u32) -> bool {
    ours.0 <= version <= ours.1 && theirs.0 <= version <= theirs.1
}

/// The highest version in both ranges, where there is one.
pub open spec fn highest_common(ours: (u32, u32), theirs: (u32, u32), found: Option<u32>) -> bool {
    match found {
        Some(version) => common(ours, theirs, version) && forall|other: u32|
            common(ours, theirs, other) ==> other <= version,
        None => forall|other: u32| !common(ours, theirs, other),
    }
}

/// The highest protocol that both sides speak, of ranges that no iteration has
/// used up.
pub fn highest_protocol_intersection(
    ours: RangeInclusive<u32>,
    theirs: RangeInclusive<u32>,
) -> (found: Option<u32>)
    ensures
        !ours@.exhausted && !theirs@.exhausted ==> highest_common(
            (ours@.start, ours@.end),
            (theirs@.start, theirs@.end),
            found,
        ),
{
    let minimum: u32 = if *ours.start() < *theirs.start() {
        *theirs.start()
    } else {
        *ours.start()
    };
    let maximum: u32 = if *ours.end() < *theirs.end() {
        *ours.end()
    } else {
        *theirs.end()
    };
    if minimum <= maximum {
        Some(maximum)
    } else {
        let ghost a = (ours@.start, ours@.end);
        let ghost b = (theirs@.start, theirs@.end);
        proof {
            if !ours@.exhausted && !theirs@.exhausted {
                assert forall|other: u32| !common(a, b, other) by {
                    if common(a, b, other) {
                        assert(minimum <= other <= maximum);
                    }
                }
            }
        }
        None
    }
}

/// The protocol that a session uses with a worker, or why there is none.
pub open spec fn negotiated(
    protocol_min: u32,
    protocol_max: u32,
    manifest_schema_version: u64,
    result: Result<u32, RpcError>,
) -> bool {
    if manifest_schema_version != MANIFEST_SCHEMA_VERSION {
        result == Err::<u32, _>(
            RpcError {
                code: ErrorCode::ProtocolIncompatible,
                message: "the worker manifest schema is not supported by this controller",
            },
        )
    } else {
        match result {
            Ok(version) => highest_common(
                (PROTOCOL_MIN, PROTOCOL_MAX),
                (protocol_min, protocol_max),
                Some(version),
            ),
            Err(error) => error == (RpcError {
                code: ErrorCode::ProtocolIncompatible,
                message:
                    "the controller and worker protocol ranges do not intersect; run styrn upgrade <host>",
            }) && highest_common(
                (PROTOCOL_MIN, PROTOCOL_MAX),
                (protocol_min, protocol_max),
                None,
            ),
        }
    }
}

/// Chooses the protocol for a session with the worker that sent `hello`.
pub fn negotiate_server_hello(hello: &ServerHello) -> (result: Result<u32, RpcError>)
    ensures
        negotiated(
            hello.protocol_min,
            hello.protocol_max,
            hello.manifest_schema_version,
            result,
        ),
{
    if hello.manifest_schema_version != MANIFEST_SCHEMA_VERSION {
        return Err(
            RpcError::new(
                ErrorCode::ProtocolIncompatible,
                "the worker manifest schema is not supported by this controller",
            ),
        );
    }
    match highest_protocol_intersection(
        RangeInclusive::new(PROTOCOL_MIN, PROTOCOL_MAX),
        RangeInclusive::new(hello.protocol_min, hello.protocol_max),
    ) {
        Some(version) => Ok(version),
        None => Err(
            RpcError::new(
                ErrorCode::ProtocolIncompatible,
                "the controller and worker protocol ranges do not intersect; run styrn upgrade <host>",
            ),
        ),
    }
}

/// What a controller tells a worker that it cannot speak with.
pub open spec fn incompatibility(
    protocol_min: u32,
    protocol_max: u32,
    manifest_schema_version: u64,
) -> Seq<char> {
    "controller protocol range ["@ + number::decimal(PROTOCOL_MIN as nat) + ", "@
        + number::decimal(PROTOCOL_MAX as nat) + "], worker protocol range ["@ + number::decimal(
        protocol_min as nat,
    ) + ", "@ + number::decimal(protocol_max as nat) + "], controller manifest schema "@
        + number::decimal(MANIFEST_SCHEMA_VERSION as nat) + ", worker manifest schema "@
        + number::decimal(manifest_schema_version as nat)
}

/// The diagnostic for a worker that the controller cannot speak with.
pub fn incompatible_server_hello_diagnostic(hello: &ServerHello, names: &ErrorCodeNames) -> (error:
    RpcDiagnostic)
    ensures
        error@ == (DiagnosticModel {
            code: names.protocol_incompatible@,
            message: incompatibility(
                hello.protocol_min,
                hello.protocol_max,
                hello.manifest_schema_version,
            ),
            details: None,
        }),
{
    let ours = numbered("controller protocol range [", PROTOCOL_MIN as u64).concat(
        numbered(", ", PROTOCOL_MAX as u64).as_str(),
    );
    let theirs = numbered("], worker protocol range [", hello.protocol_min as u64).concat(
        numbered(", ", hello.protocol_max as u64).as_str(),
    );
    let schemas = numbered("], controller manifest schema ", MANIFEST_SCHEMA_VERSION).concat(
        numbered(", worker manifest schema ", hello.manifest_schema_version).as_str(),
    );
    let message = ours.concat(theirs.as_str()).concat(schemas.as_str());
    assert(message@ =~= incompatibility(
        hello.protocol_min,
        hello.protocol_max,
        hello.manifest_schema_version,
    ));
    RpcDiagnostic::new(names.protocol_incompatible.as_str(), message.as_str())
}

// ---------------------------------------------------------------------------
// Peers
// ---------------------------------------------------------------------------

/// The worker that a controller means to speak with.
#[derive(Clone, Debug)]
pub struct ExpectedPeer {
    pub machine_id: u128,
    pub name: String,
    pub user: String,
}

/// A name that a peer may have.
pub open spec fn peer_name(name: Seq<char>) -> bool {
    frame::bounded(Some(name), 255) && !text::has_control(name)
}

fn is_peer_name(name: &str) -> (holds: bool)
    ensures
        holds == peer_name(name@),
{
    let chars = chars_of(name);
    chars.len() > 0 && len_in_bytes(name) <= 255 && !contains_control(&chars)
}

impl ExpectedPeer {
    /// The worker to expect.
    pub fn new(machine_id: u128, name: &str, user: &str) -> (result: Result<Self, RpcError>)
        ensures
            match result {
                Ok(peer) => {
                    &&& machine_id::version(machine_id) == 7
                    &&& peer_name(name@) && peer_name(user@)
                    &&& peer.machine_id == machine_id
                    &&& peer.name@ == name@
                    &&& peer.user@ == user@
                },
                Err(error) => {
                    &&& !(machine_id::version(machine_id) == 7 && peer_name(name@) && peer_name(
                        user@,
                    ))
                    &&& error == (RpcError {
                        code: ErrorCode::UsageInvalidArgument,
                        message: "the expected RPC peer is invalid",
                    })
                },
            },
    {
        if !is_version_seven(machine_id) || !is_peer_name(name) || !is_peer_name(user) {
            return Err(
                RpcError::new(ErrorCode::UsageInvalidArgument, "the expected RPC peer is invalid"),
            );
        }
        Ok(ExpectedPeer { machine_id, name: name.to_owned(), user: user.to_owned() })
    }

    /// The machine to expect.
    pub fn machine_id(&self) -> (id: u128)
        ensures
            id == self.machine_id,
    {
        self.machine_id
    }
}

/// What a manifest says about the identity of its machine.
#[derive(Debug)]
pub struct ManifestIdentity {
    pub machine_id: u128,
    pub name: String,
    pub schema_version: u64,
    pub transport_user: Option<String>,
    pub identity_user: Option<String>,
}

/// The hello, the manifest and the expectation are about one machine and one
/// user.
pub open spec fn bound(
    hello: ServerHello,
    manifest: ManifestIdentity,
    expected: ExpectedPeer,
) -> bool {
    &&& hello.machine_id == manifest.machine_id == expected.machine_id
    &&& hello.name@ == manifest.name@
    &&& hello.name@ == expected.name@
    &&& hello.manifest_schema_version == manifest.schema_version
    &&& text::is_text(manifest.transport_user, expected.user@)
    &&& text::is_text(manifest.identity_user, expected.user@)
}

/// Accepts a manifest that is about the machine that said hello and that was
/// expected.
pub fn validate_hello_manifest_binding(
    hello: &ServerHello,
    manifest: &ManifestIdentity,
    expected: &ExpectedPeer,
) -> (result: Result<(), RpcError>)
    ensures
        result == (if bound(*hello, *manifest, *expected) {
            Ok::<(), RpcError>(())
        } else {
            Err(malformed("the RPC hello and worker manifest binding did not match"))
        }),
{
    if hello.machine_id != manifest.machine_id || !same_text(
        hello.name.as_str(),
        manifest.name.as_str(),
    ) || hello.manifest_schema_version != manifest.schema_version || hello.machine_id
        != expected.machine_id || !same_text(hello.name.as_str(), expected.name.as_str())
        || !optional_is(&manifest.transport_user, expected.user.as_str()) || !optional_is(
        &manifest.identity_user,
        expected.user.as_str(),
    ) {
        return Err(RpcError::malformed("the RPC hello and worker manifest binding did not match"));
    }
    Ok(())
}

} // verus!
