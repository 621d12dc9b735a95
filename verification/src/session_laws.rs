//! What a session between a controller and a worker comes to, in terms of the frames
//! that were sent and received.

use crate::frame;
use crate::frame::{Frame, FrameError, FrameErrorKind, FrameModel, RpcDiagnostic, ServerHello};
use crate::json;
use crate::json::{Json, JsonValue};
use crate::machine_id;
use crate::number;
use crate::rpc;
use crate::rpc::{
    highest_protocol_intersection, incompatible_server_hello_diagnostic, negotiate_server_hello,
    validate_hello_manifest_binding, ErrorCode, ErrorCodeNames, ExpectedPeer, ManifestIdentity,
    RpcError,
};
use crate::rpc_client;
use crate::resources::{MachineStatus, StatusError};
use crate::rpc_client::{ConnectStep, ParsedManifest, RpcClient};
use crate::rpc_payload;
use crate::rpc_payload::{
    canonical_authorized_public_key, validate_exec_argv, ExecResult, WorkerDoctorFinding,
    WorkerDoctorReport,
};
use crate::rpc_server;
use crate::rpc_server::{
    answer, answered, finish_exec, poll_exec, protocol_failure, read_request, redact,
    sanitize_capture, server_hello, Call, Capture, CaptureRead, CaptureStep, Ending, ExecStep,
    HandlerError, ProtocolFault, ServerSession, WaitEvent, WorkerRequest,
};
use crate::secret;
use crate::status_laws::{flagged, lemma_takes_finding, takes_finding};
use crate::text;
use crate::wire_laws::{at, fields_are_found_where_they_stand};
use std::ops::RangeInclusive;
use vstd::prelude::*;
use vstd::utf8::{decode_utf8, encode_utf8, valid_utf8};

verus! {

// ---------------------------------------------------------------------------
// Versions and peers
// ---------------------------------------------------------------------------

/// Of two ranges the greatest common number is found, and none only where they have
/// none in common.
pub proof fn ranges_meet_at_their_greatest(
    ours: RangeInclusive<u32>,
    theirs: RangeInclusive<u32>,
    found: Option<u32>,
    other: u32,
)
    requires
        call_ensures(highest_protocol_intersection, (ours, theirs), found),
        !ours@.exhausted && !theirs@.exhausted,
    ensures
        found matches Some(found) ==> ours@.start <= found <= ours@.end && theirs@.start <= found
            <= theirs@.end && (found == ours@.end || found == theirs@.end),
        ours@.start <= other <= ours@.end && theirs@.start <= other <= theirs@.end
            ==> found is Some && other <= found->0,
{
    let a = (ours@.start, ours@.end);
    let b = (theirs@.start, theirs@.end);
    assert(rpc::highest_common(a, b, found));
    if ours@.start <= other <= ours@.end && theirs@.start <= other <= theirs@.end {
        assert(rpc::common(a, b, other));
    }
    if let Some(version) = found {
        if version < ours@.end && version < theirs@.end {
            assert(rpc::common(a, b, (version + 1) as u32));
        }
    }
}

/// A worker is spoken with exactly where its manifest is of the first schema and its
/// range of protocols has the first, and then by the first. Otherwise the two are
/// incompatible.
pub proof fn sessions_speak_the_first_protocol(hello: &ServerHello, result: Result<u32, RpcError>)
    requires
        call_ensures(negotiate_server_hello, (hello,), result),
    ensures
        result is Ok <==> hello.manifest_schema_version == 1 && hello.protocol_min <= 1
            <= hello.protocol_max,
        result matches Ok(protocol) ==> protocol == 1,
        result matches Err(error) ==> error.code == ErrorCode::ProtocolIncompatible,
{
    let a = (1u32, 1u32);
    let b = (hello.protocol_min, hello.protocol_max);
    if hello.manifest_schema_version == 1 {
        match result {
            Ok(protocol) => {
                assert(rpc::common(a, b, protocol));
            },
            Err(_) => {
                assert(!rpc::common(a, b, 1));
            },
        }
    }
}

/// Whether a text may name a peer: one to 255 bytes without control characters.
pub open spec fn may_name_peer(name: Seq<char>) -> bool {
    &&& name.len() > 0
    &&& encode_utf8(name).len() <= 255
    &&& forall|i: int|
        0 <= i < name.len() ==> 0x20 <= (#[trigger] name[i]) as u32 && !(0x7f <= name[i] as u32
            <= 0x9f)
}

proof fn lemma_may_name_peer(name: Seq<char>)
    ensures
        rpc::peer_name(name) == may_name_peer(name),
{
    if text::has_control(name) {
        let i = choose|i: int| 0 <= i < name.len() && text::is_control(#[trigger] name[i]);
        assert(!(0x20 <= name[i] as u32 && !(0x7f <= name[i] as u32 <= 0x9f)));
    } else {
        assert forall|i: int| 0 <= i < name.len() implies 0x20 <= (#[trigger] name[i]) as u32 && !(
        0x7f <= name[i] as u32 <= 0x9f) by {
            assert(!text::is_control(name[i]));
        }
    }
    if name.len() == 0 {
        reveal_with_fuel(encode_utf8, 1);
    }
}

/// A peer is expected as it is given, exactly where its identifier is of version seven
/// and its name and user may name one.
pub proof fn peers_are_expected_as_given(
    machine_id: u128,
    name: &str,
    user: &str,
    result: Result<ExpectedPeer, RpcError>,
)
    requires
        call_ensures(ExpectedPeer::new, (machine_id, name, user), result),
    ensures
        result is Ok <==> machine_id::version(machine_id) == 7 && may_name_peer(name@)
            && may_name_peer(user@),
        result matches Ok(peer) ==> peer.machine_id == machine_id && peer.name@ == name@
            && peer.user@ == user@,
        result matches Err(error) ==> error.code == ErrorCode::UsageInvalidArgument,
{
    lemma_may_name_peer(name@);
    lemma_may_name_peer(user@);
}

/// A manifest is accepted exactly where it, the hello and the expectation are of one
/// machine by identifier and by name, the hello announced its schema, and both of its
/// users are the expected one.
pub proof fn manifests_are_bound_to_their_machine(
    hello: &ServerHello,
    manifest: &ManifestIdentity,
    expected: &ExpectedPeer,
    result: Result<(), RpcError>,
)
    requires
        call_ensures(validate_hello_manifest_binding, (hello, manifest, expected), result),
    ensures
        result is Ok <==> {
            &&& hello.machine_id == expected.machine_id
            &&& manifest.machine_id == expected.machine_id
            &&& hello.name@ == expected.name@
            &&& manifest.name@ == expected.name@
            &&& hello.manifest_schema_version == manifest.schema_version
            &&& text::optional_text(manifest.transport_user) == Some(expected.user@)
            &&& text::optional_text(manifest.identity_user) == Some(expected.user@)
        },
        result matches Err(error) ==> error.code == ErrorCode::ProtocolMalformed,
{
}

// ---------------------------------------------------------------------------
// The worker's side
// ---------------------------------------------------------------------------

/// A worker says who it is, which schema its manifest has, and that it speaks the
/// first protocol.
pub proof fn workers_say_who_they_are(
    machine_id: u128,
    name: &str,
    schema: u64,
    version: &str,
    hello: Frame,
)
    requires
        call_ensures(server_hello, (machine_id, name, schema, version), hello),
    ensures
        hello@ matches FrameModel::ServerHello {
            protocol_min,
            protocol_max,
            styrn_version,
            machine_id: said_id,
            name: said_name,
            manifest_schema_version,
        } && protocol_min == 1 && protocol_max == 1 && styrn_version == version@ && said_id
            == machine_id && said_name == name@ && manifest_schema_version == schema,
{
}

/// Whether a session ends with a diagnostic of a code under an identifier.
pub open spec fn ends_telling(ending: Ending, id: Seq<char>, code: Seq<char>) -> bool {
    &&& ending.reply matches Some(reply) && (reply@ matches FrameModel::Error {
        id: under,
        errors,
    } && under == id && errors.len() == 1 && errors[0].code == code && errors[0].details is None)
    &&& ending.result is Err
}

/// A fault is told under the identifier that it is about, with the code of its kind,
/// and ends the session with a failure of that kind.
pub proof fn faults_are_told(
    id: &str,
    fault: ProtocolFault,
    names: &ErrorCodeNames,
    ending: Ending,
)
    requires
        call_ensures(protocol_failure, (id, fault, names), ending),
    ensures
        ends_telling(
            ending,
            id@,
            if fault == ProtocolFault::Incompatible {
                names.protocol_incompatible@
            } else {
                names.protocol_malformed@
            },
        ),
        ending.result->Err_0.code == if fault == ProtocolFault::Incompatible {
            ErrorCode::ProtocolIncompatible
        } else {
            ErrorCode::ProtocolMalformed
        },
{
}

/// A session opens exactly where the controller chose the first protocol. A controller
/// that closes, or that says it cannot speak with this worker, ends it in peace; a lost
/// connection ends it silently; everything else is told as a fault.
pub proof fn sessions_open_with_the_first_protocol(
    received: Result<Option<Frame>, FrameError>,
    names: &ErrorCodeNames,
    result: Result<ServerSession, Ending>,
)
    requires
        call_ensures(ServerSession::select, (received, names), result),
    ensures
        result is Ok <==> (received matches Ok(Some(frame)) && (frame@
            matches FrameModel::ClientHello { protocol, .. } && protocol == 1)),
        result matches Ok(session) ==> session.next_id == 1,
        received matches Ok(None) ==> (result matches Err(ending) && ending.reply is None
            && ending.result is Ok),
        received matches Err(error) ==> (result matches Err(ending) && ending.result is Err && (
        ending.reply is None <==> error.kind == FrameErrorKind::Io)),
        (received matches Ok(Some(frame)) && (frame@ matches FrameModel::ClientHello {
            protocol,
            ..
        } && protocol != 1)) ==> (result matches Err(ending) && ends_telling(
            ending,
            "hello"@,
            names.protocol_incompatible@,
        )),
        (received matches Ok(Some(frame)) && (frame@ matches FrameModel::Error { id, errors } && id
            == "hello"@ && errors.len() == 1 && errors[0].code == names.protocol_incompatible@
            && errors[0].details is None)) ==> (result matches Err(ending) && ending.reply is None
            && ending.result is Ok),
        (received matches Ok(Some(frame)) && (frame@ is Request || frame@ is Response || frame@
            is ServerHello)) ==> (result matches Err(ending) && ends_telling(
            ending,
            "hello"@,
            names.protocol_malformed@,
        )),
{
}

/// A request is taken as it was sent, exactly where it is the one that is due by its
/// number, and the next number is then due; otherwise the number that is due stays.
pub proof fn requests_are_taken_in_their_order(
    session: &mut ServerSession,
    received: Result<Option<Frame>, FrameError>,
    names: &ErrorCodeNames,
    result: Result<Call, Ending>,
)
    requires
        call_ensures(ServerSession::receive, (session, received, names), result),
    ensures
        result is Ok <==> {
            &&& old(session).next_id < u64::MAX
            &&& received matches Ok(Some(frame)) && (frame@ matches FrameModel::Request { id, .. }
                && id == seq!['c'] + number::decimal(old(session).next_id as nat))
        },
        result matches Ok(call) ==> {
            &&& received->Ok_0->0@ == (FrameModel::Request {
                id: call.id@,
                method: call.method@,
                params: call.params@,
            })
            &&& final(session).next_id == old(session).next_id + 1
        },
        result is Err ==> final(session).next_id == old(session).next_id,
        received matches Ok(None) ==> (result matches Err(ending) && ending.reply is None
            && ending.result is Ok),
        (received matches Ok(Some(frame)) && (frame@ matches FrameModel::Request { id, .. } && id
            != seq!['c'] + number::decimal(old(session).next_id as nat))) ==> (result matches Err(
            ending,
        ) && ends_telling(
            ending,
            received->Ok_0->0@->Request_id,
            names.protocol_malformed@,
        )),
{
    reveal_strlit("c");
    assert("c"@ =~= seq!['c']);
}

/// A request that was handled is answered under its identifier: with the data; with
/// one diagnostic where the worker could not do it; and with a fault where there is no
/// such request. An answer that was too large is replaced by that diagnostic.
pub proof fn requests_are_answered(
    id: &str,
    handled: Result<JsonValue, HandlerError>,
    names: &ErrorCodeNames,
    result: Result<Frame, Ending>,
    written: Result<(), FrameError>,
    after: Result<Option<Frame>, RpcError>,
)
    requires
        call_ensures(answer, (id, handled, names), result),
        call_ensures(answered, (id, written, names), after),
    ensures
        handled matches Ok(data) ==> (result matches Ok(response) && (response@
            matches FrameModel::Response { id: under, ok, data: sent, errors } && under == id@ && ok
            && sent == Some(data@) && errors.len() == 0)),
        handled matches Err(HandlerError::Remote) ==> (result matches Ok(response) && tells_failure(
            response@,
            id@,
            *names,
        )),
        handled matches Err(HandlerError::Malformed) ==> (result matches Err(ending)
            && ends_telling(ending, id@, names.protocol_malformed@)),
        written is Ok ==> after matches Ok(None),
        written matches Err(error) ==> if error.kind == FrameErrorKind::Oversize {
            after matches Ok(Some(response)) && tells_failure(response@, id@, *names)
        } else {
            after is Err
        },
{
}

/// Whether a response tells that the worker could not do what was asked.
pub open spec fn tells_failure(response: FrameModel, id: Seq<char>, names: ErrorCodeNames) -> bool {
    response matches FrameModel::Response { id: under, ok, data, errors } && under == id && !ok
        && data is None && errors.len() == 1 && errors[0].code == names.remote_execution_failed@
        && errors[0].message == "the worker could not complete the RPC method"@
        && errors[0].details is None
}

// ---------------------------------------------------------------------------
// What is asked
// ---------------------------------------------------------------------------

/// Manifests and statuses are asked for by their names, without parameters.
pub proof fn manifests_and_statuses_are_asked_for_by_name<F: Fn(&str) -> bool>(
    method: &str,
    params: &JsonValue,
    secret: &F,
    result: Result<WorkerRequest, HandlerError>,
)
    requires
        call_ensures(read_request::<F>, (method, params, secret), result),
    ensures
        result == Ok::<_, HandlerError>(WorkerRequest::Manifest) <==> method@ == "machine.manifest"@
            && params@ == Json::Object(seq![]),
        result == Ok::<_, HandlerError>(WorkerRequest::Status) <==> method@ == "machine.status"@
            && params@ == Json::Object(seq![]),
        result matches Ok(WorkerRequest::Doctor { .. }) ==> method@ == "machine.doctor"@,
        result matches Ok(WorkerRequest::Exec { .. }) ==> method@ == "exec.run"@,
        result matches Err(error) ==> error == HandlerError::Malformed,
{
    reveal_strlit("machine.manifest");
    reveal_strlit("machine.status");
    reveal_strlit("machine.doctor");
    reveal_strlit("exec.run");
    assert("machine.manifest"@.len() == 16 && "machine.status"@.len() == 14);
    assert("machine.doctor"@.len() == 14 && "exec.run"@.len() == 8);
    assert("machine.doctor"@[8] == 'd' && "machine.status"@[8] == 's');
}

/// A command that is sent under its name, as the only field of an object or by itself,
/// is read as that command, argument for argument, exactly where the command is
/// accepted.
pub proof fn commands_are_asked_for_as_they_are<F: Fn(&str) -> bool>(
    method: &str,
    params: &JsonValue,
    secret: &F,
    result: Result<WorkerRequest, HandlerError>,
    argv: &[String],
    verdict: Result<(), RpcError>,
)
    requires
        call_ensures(read_request::<F>, (method, params, secret), result),
        call_ensures(validate_exec_argv::<F>, (argv, secret), verdict),
        method@ == "exec.run"@,
        params@ == Json::Object(seq![("argv"@, Json::Array(spelled_out(argv@)))]) || params@
            == Json::Array(seq![Json::Array(spelled_out(argv@))]),
    ensures
        result is Ok <==> verdict is Ok,
        result matches Ok(request) ==> (request matches WorkerRequest::Exec { argv: read }
            && read@.len() == argv@.len() && forall|i: int|
            0 <= i < argv@.len() ==> (#[trigger] read@[i])@ == argv@[i]@),
{
    manifests_and_statuses_are_asked_for_by_name(method, params, secret, result);
    reveal_strlit("machine.manifest");
    reveal_strlit("machine.status");
    reveal_strlit("machine.doctor");
    reveal_strlit("exec.run");
    assert("machine.manifest"@.len() == 16 && "machine.status"@.len() == 14);
    assert("machine.doctor"@.len() == 14 && "exec.run"@.len() == 8);
    let items = spelled_out(argv@);
    let value = Json::Array(items);
    if params@ == Json::Object(seq![("argv"@, value)]) {
        let entries = params@->Object_0;
        assert(entries == seq![("argv"@, value)]);
        crate::json::lemma_field_at(entries, 0);
    } else {
        assert(params@->Array_0 == seq![value]);
        assert(params@->Array_0[0] == value);
    }
    assert(rpc_server::only_param(params@, "argv"@) == Some(value));
    assert(rpc_server::all_texts(items));
    assert(rpc_server::texts_of(items) =~= text::string_views(argv@));
    match result {
        Ok(WorkerRequest::Exec { argv: read }) => {
            assert(text::string_views(read@) == text::string_views(argv@));
            assert(text::string_views(read@).len() == read@.len());
            assert forall|i: int| 0 <= i < argv@.len() implies (#[trigger] read@[i])@
                == argv@[i]@ by {
                assert(text::string_views(read@)[i] == text::string_views(argv@)[i]);
            }
            lemma_alike(*secret, read@, argv@);
        },
        _ => {},
    }
}

/// Arguments as texts of a document.
pub open spec fn spelled_out(argv: Seq<String>) -> Seq<Json> {
    Seq::new(argv.len(), |i: int| Json::Text(argv[i]@))
}

proof fn lemma_alike<F: Fn(&str) -> bool>(secret: F, left: Seq<String>, right: Seq<String>)
    requires
        left.len() == right.len(),
        forall|i: int| 0 <= i < right.len() ==> (#[trigger] left[i])@ == right[i]@,
    ensures
        rpc_payload::acceptable_argv(secret, left) ==> rpc_payload::acceptable_argv(secret, right),
{
    if rpc_payload::acceptable_argv(secret, left) {
        lemma_bytes_alike(left, right, left.len());
        assert forall|i: int|
            #![trigger right[i]]
            0 <= i < right.len() implies text::byte_len(right[i]@)
            <= rpc::MAX_EXEC_ARGUMENT_BYTES && !secret::detects(secret, right[i]@) by {
            assert(left[i]@ == right[i]@);
        }
        assert(left[0]@ == right[0]@);
    }
}

proof fn lemma_bytes_alike(left: Seq<String>, right: Seq<String>, n: nat)
    requires
        left.len() == right.len(),
        forall|i: int| 0 <= i < right.len() ==> (#[trigger] left[i])@ == right[i]@,
    ensures
        rpc_payload::argument_bytes(left, n) == rpc_payload::argument_bytes(right, n),
    decreases n,
{
    if 0 < n <= left.len() {
        lemma_bytes_alike(left, right, (n - 1) as nat);
        assert(left[n - 1]@ == right[n - 1]@);
    }
}

/// A key that is sent under its name is read without its comment, exactly where it is
/// one.
pub proof fn keys_are_asked_about_as_they_are<F: Fn(&str) -> bool>(
    method: &str,
    params: &JsonValue,
    secret: &F,
    result: Result<WorkerRequest, HandlerError>,
    key: &str,
    canonical: Result<String, RpcError>,
)
    requires
        call_ensures(read_request::<F>, (method, params, secret), result),
        call_ensures(canonical_authorized_public_key, (key,), canonical),
        method@ == "machine.doctor"@,
        params@ == Json::Object(seq![("authorized_public_key"@, Json::Text(key@))]) || params@
            == Json::Array(seq![Json::Text(key@)]),
    ensures
        result is Ok <==> canonical is Ok,
        result matches Ok(request) ==> (request matches WorkerRequest::Doctor {
            authorized_public_key,
        } && authorized_public_key@ == canonical->Ok_0@),
{
    manifests_and_statuses_are_asked_for_by_name(method, params, secret, result);
    reveal_strlit("machine.manifest");
    reveal_strlit("machine.status");
    reveal_strlit("machine.doctor");
    reveal_strlit("exec.run");
    assert("machine.manifest"@.len() == 16 && "machine.status"@.len() == 14);
    assert("machine.doctor"@.len() == 14 && "exec.run"@.len() == 8);
    assert("machine.doctor"@[8] == 'd' && "machine.status"@[8] == 's');
    let value = Json::Text(key@);
    if params@ is Object {
        let entries = params@->Object_0;
        assert(entries == seq![("authorized_public_key"@, value)]);
        crate::json::lemma_field_at(entries, 0);
    } else {
        assert(params@->Array_0 == seq![value]);
        assert(params@->Array_0[0] == value);
    }
    assert(rpc_server::only_param(params@, "authorized_public_key"@) == Some(value));
}

// ---------------------------------------------------------------------------
// Running commands
// ---------------------------------------------------------------------------

/// Output is kept from its beginning, up to a mebibyte, and it is noted whether there
/// was more.
pub open spec fn keeps(capture: Capture, output: Seq<u8>) -> bool {
    &&& capture.overflow <==> output.len() > 1048576
    &&& capture.bytes@ == if output.len() > 1048576 {
        output.take(1048576)
    } else {
        output
    }
}

/// A capture begins with nothing, and every read adds what it gave to what was read
/// before. That there is too much is told when it first happens.
pub proof fn captures_keep_what_was_read(
    fresh: Capture,
    capture: &mut Capture,
    read: CaptureRead,
    step: CaptureStep,
    output: Seq<u8>,
)
    requires
        call_ensures(Capture::new, (), fresh),
        call_ensures(Capture::accept, (capture, read), step),
        keeps(*old(capture), output),
    ensures
        keeps(fresh, seq![]),
        read matches CaptureRead::Bytes(chunk) ==> keeps(*final(capture), output + chunk@),
        !(read is Bytes) ==> *final(capture) == *old(capture),
        step == match read {
            CaptureRead::End => CaptureStep::Done,
            CaptureRead::Failed => CaptureStep::Fail,
            CaptureRead::Interrupted => CaptureStep::Continue,
            CaptureRead::Bytes(chunk) => if output.len() <= 1048576 && output.len() + chunk@.len()
                > 1048576 {
                CaptureStep::Overflow
            } else {
                CaptureStep::Continue
            },
        },
{
    assert(rpc_server::captures(*old(capture), output));
    let none: Seq<u8> = seq![];
    assert(rpc_server::captures(fresh, none));
}

/// A command is killed where its output failed or it cannot be waited for, collected
/// where it exited, and otherwise left to run.
pub proof fn commands_run_until_they_exit(failed: bool, waited: WaitEvent, step: ExecStep)
    requires
        call_ensures(poll_exec, (failed, waited), step),
    ensures
        step is Kill <==> failed || waited is Failed,
        step is Sleep <==> !failed && waited is Running,
        step matches ExecStep::Collect { code } ==> waited == (WaitEvent::Exited { code }),
{
}

/// Whether output is sent so: as its text, unless that is flagged, and with word of
/// whether its bytes were text.
pub open spec fn is_sent_as<F: Fn(&str) -> bool>(
    secret: F,
    bytes: Seq<u8>,
    said: Seq<char>,
    lossy: bool,
    redacted: bool,
) -> bool {
    &&& lossy <==> !valid_utf8(bytes)
    &&& valid_utf8(bytes) ==> (redacted <==> flagged(secret, decode_utf8(bytes)))
    &&& redacted ==> said == "[redacted secret-shaped output]"@
    &&& !redacted ==> !flagged(secret, said)
    &&& valid_utf8(bytes) && !redacted ==> said == decode_utf8(bytes)
}

/// What came of a command: there is a result exactly where it exited with a code and
/// both of its outputs were kept whole. The result has that code, both outputs, and the
/// time that it took.
pub proof fn results_are_what_came_of_the_command<F: Fn(&str) -> bool>(
    code: Option<i32>,
    stdout: Option<Capture>,
    stderr: Option<Capture>,
    elapsed: u128,
    secret: &F,
    result: Result<ExecResult, HandlerError>,
)
    requires
        call_ensures(finish_exec::<F>, (code, stdout, stderr, elapsed, secret), result),
    ensures
        result is Ok <==> code is Some && (stdout matches Some(out) && !out.overflow) && (
        stderr matches Some(err) && !err.overflow),
        result matches Ok(done) ==> {
            &&& done.exit_code == code->0
            &&& is_sent_as(
                *secret,
                stdout->0.bytes@,
                done.stdout@,
                done.stdout_lossy,
                done.stdout_redacted,
            )
            &&& is_sent_as(
                *secret,
                stderr->0.bytes@,
                done.stderr@,
                done.stderr_lossy,
                done.stderr_redacted,
            )
            &&& elapsed <= u64::MAX ==> done.duration_ms == elapsed
            &&& elapsed > u64::MAX ==> done.duration_ms == u64::MAX
        },
        result matches Err(error) ==> error == HandlerError::Remote,
{
    if let Ok(done) = result {
        let out = stdout->0.bytes@;
        let err = stderr->0.bytes@;
        assert(valid_utf8(out) ==> text::decoded(out) == Some(decode_utf8(out)));
        assert(valid_utf8(err) ==> text::decoded(err) == Some(decode_utf8(err)));
    }
}

/// Output is sent as its text, or, where that is flagged, as the mark of a redaction.
pub proof fn flagged_output_is_not_sent<F: Fn(&str) -> bool>(
    bytes: &[u8],
    secret: &F,
    result: (String, bool, bool),
    said: String,
    redacted: (String, bool),
)
    requires
        call_ensures(sanitize_capture::<F>, (bytes, secret), result),
        call_ensures(redact::<F>, (said, secret), redacted),
    ensures
        is_sent_as(*secret, bytes@, result.0@, result.1, result.2),
        redacted.1 <==> flagged(*secret, said@),
        redacted.0@ == if redacted.1 {
            "[redacted secret-shaped output]"@
        } else {
            said@
        },
{
    assert(valid_utf8(bytes@) ==> text::decoded(bytes@) == Some(decode_utf8(bytes@)));
}

// ---------------------------------------------------------------------------
// The controller's side
// ---------------------------------------------------------------------------

/// A session begins exactly with the hello of a worker that can be spoken with; it is
/// answered with the first protocol and the controller's version. A worker that cannot
/// be spoken with is told so; other failures are not answered.
pub proof fn sessions_begin_with_a_hello(
    first: Result<Option<Frame>, FrameError>,
    before_hello: ErrorCode,
    version: &str,
    names: &ErrorCodeNames,
    step: ConnectStep,
)
    requires
        call_ensures(RpcClient::connect, (first, before_hello, version, names), step),
    ensures
        step is Greet <==> (first matches Ok(Some(Frame::ServerHello(hello)))
            && hello.manifest_schema_version == 1 && hello.protocol_min <= 1
            <= hello.protocol_max),
        step matches ConnectStep::Greet { client, reply } ==> {
            &&& first == Ok::<_, FrameError>(Some(Frame::ServerHello(client.hello)))
            &&& client.next_id == 1
            &&& !client.terminated
            &&& reply@ == (FrameModel::ClientHello { protocol: 1, styrn_version: version@ })
        },
        step matches ConnectStep::Refuse { reply, error } ==> {
            &&& reply is Some <==> (first matches Ok(Some(Frame::ServerHello(_))))
            &&& reply matches Some(reply) ==> (reply@ matches FrameModel::Error { id, errors } && id
                == "hello"@ && errors.len() == 1 && errors[0].code == names.protocol_incompatible@
                && errors[0].details is None)
            &&& error.code == match first {
                Ok(Some(Frame::ServerHello(_))) => ErrorCode::ProtocolIncompatible,
                Ok(Some(_)) => ErrorCode::ProtocolMalformed,
                Ok(None) => before_hello,
                Err(failure) => if failure.kind == FrameErrorKind::Io {
                    ErrorCode::TransportSessionLost
                } else {
                    ErrorCode::ProtocolMalformed
                },
            }
        },
{
    if let Ok(Some(Frame::ServerHello(hello))) = first {
        let a = (1u32, 1u32);
        let b = (hello.protocol_min, hello.protocol_max);
        if hello.manifest_schema_version == 1 {
            match step {
                ConnectStep::Greet { client, reply } => {
                    let chosen = reply->ClientHello_0.protocol;
                    assert(rpc::common(a, b, chosen));
                },
                ConnectStep::Refuse { reply, error } => {
                    assert(!rpc::common(a, b, 1));
                },
            }
        }
    }
}

/// Whether a frame asks for a method with parameters under a number.
pub open spec fn asks(sent: FrameModel, n: u64, method: Seq<char>, params: Json) -> bool {
    sent == FrameModel::Request { id: seq!['c'] + number::decimal(n as nat), method, params }
}

/// A request is sent under the next number, exactly where the session goes on and has
/// numbers left; the number after it is then the next. Otherwise the session is over.
pub proof fn requests_are_numbered(
    client: &mut RpcClient,
    method: &str,
    params: JsonValue,
    result: Result<Frame, RpcError>,
)
    requires
        call_ensures(RpcClient::begin_request, (client, method, params), result),
    ensures
        result is Ok <==> !old(client).terminated && old(client).next_id < u64::MAX,
        result matches Ok(sent) ==> asks(sent@, old(client).next_id, method@, params@)
            && final(client).next_id == old(client).next_id + 1 && !final(client).terminated,
        result matches Err(error) ==> final(client).terminated && final(client).next_id == old(client).next_id && error.code == if old(client).terminated {
            ErrorCode::TransportSessionLost
        } else {
            ErrorCode::ProtocolMalformed
        },
        final(client).hello == old(client).hello,
{
    reveal_strlit("c");
    assert("c"@ =~= seq!['c']);
}

/// A manifest and a status are asked for by their names without parameters.
pub proof fn manifests_and_statuses_are_requested(
    client: &mut RpcClient,
    other: &mut RpcClient,
    manifest: Result<Frame, RpcError>,
    status: Result<Frame, RpcError>,
)
    requires
        call_ensures(RpcClient::request_manifest, (client,), manifest),
        call_ensures(RpcClient::request_status, (other,), status),
    ensures
        manifest is Ok <==> !old(client).terminated && old(client).next_id < u64::MAX,
        manifest matches Ok(sent) ==> asks(
            sent@,
            old(client).next_id,
            "machine.manifest"@,
            Json::Object(seq![]),
        ) && final(client).next_id == old(client).next_id + 1,
        status is Ok <==> !old(other).terminated && old(other).next_id < u64::MAX,
        status matches Ok(sent) ==> asks(
            sent@,
            old(other).next_id,
            "machine.status"@,
            Json::Object(seq![]),
        ) && final(other).next_id == old(other).next_id + 1,
{
    reveal_strlit("c");
    assert("c"@ =~= seq!['c']);
}

/// A command is sent argument for argument, exactly where it is accepted and the
/// session goes on. One that is refused leaves the session as it is.
pub proof fn commands_are_sent_as_they_are<F: Fn(&str) -> bool>(
    client: &mut RpcClient,
    argv: &[String],
    secret: &F,
    result: Result<Frame, RpcError>,
    verdict: Result<(), RpcError>,
)
    requires
        call_ensures(RpcClient::request_exec::<F>, (client, argv, secret), result),
        call_ensures(validate_exec_argv::<F>, (argv, secret), verdict),
    ensures
        result is Ok <==> verdict is Ok && !old(client).terminated && old(client).next_id
            < u64::MAX,
        result matches Ok(sent) ==> asks(
            sent@,
            old(client).next_id,
            "exec.run"@,
            Json::Object(seq![("argv"@, Json::Array(spelled_out(argv@)))]),
        ) && final(client).next_id == old(client).next_id + 1,
        verdict matches Err(error) ==> result == Err::<Frame, _>(error) && *final(client) == *old(client),
{
    reveal_strlit("c");
    assert("c"@ =~= seq!['c']);
    assert(argv@.map_values(|argument: String| Json::Text(argument@)) =~= spelled_out(argv@));
}

/// A key is sent without its comment, exactly where it is one and the session goes on.
/// One that is refused leaves the session as it is.
pub proof fn keys_are_sent_without_their_comments(
    client: &mut RpcClient,
    key: &str,
    result: Result<Frame, RpcError>,
    canonical: Result<String, RpcError>,
)
    requires
        call_ensures(RpcClient::request_doctor, (client, key), result),
        call_ensures(canonical_authorized_public_key, (key,), canonical),
    ensures
        result is Ok <==> canonical is Ok && !old(client).terminated && old(client).next_id
            < u64::MAX,
        result matches Ok(sent) ==> asks(
            sent@,
            old(client).next_id,
            "machine.doctor"@,
            Json::Object(seq![("authorized_public_key"@, Json::Text(canonical->Ok_0@))]),
        ) && final(client).next_id == old(client).next_id + 1,
        canonical matches Err(error) ==> result == Err::<Frame, _>(error) && *final(client) == *old(client),
{
    reveal_strlit("c");
    assert("c"@ =~= seq!['c']);
}

/// A request is completed exactly by a response under its identifier that is a success
/// with data and no diagnostics, and gives that data. A response under its identifier
/// with the one diagnostic of a worker that could not do it is a failure after which
/// the session goes on. Everything else ends the session.
pub proof fn requests_are_completed_by_their_response(
    client: &mut RpcClient,
    id: &str,
    received: Result<Option<Frame>, FrameError>,
    names: &ErrorCodeNames,
    result: Result<JsonValue, RpcError>,
)
    requires
        call_ensures(RpcClient::complete_request, (client, id, received, names), result),
    ensures
        result is Ok <==> (received matches Ok(Some(frame)) && (frame@
            matches FrameModel::Response { id: under, ok, data, errors } && under == id@ && ok
            && data is Some && errors.len() == 0)),
        result matches Ok(data) ==> received->Ok_0->0@->data == Some(data@) && final(client).terminated == old(client).terminated,
        result matches Err(error) ==> {
            let failed = received matches Ok(Some(frame)) && (frame@
                matches FrameModel::Response { id: under, ok, errors, .. } && under == id@ && !ok
                && errors.len() == 1 && errors[0].code == names.remote_execution_failed@
                && errors[0].message == "the worker could not complete the RPC method"@
                && errors[0].details is None);
            &&& failed <==> error.code == ErrorCode::RemoteExecutionFailed
            &&& failed ==> final(client).terminated == old(client).terminated
            &&& !failed ==> final(client).terminated
            &&& received matches Ok(None) ==> error.code == ErrorCode::TransportSessionLost
        },
        final(client).hello == old(client).hello && final(client).next_id == old(client).next_id,
{
}

/// A session ends well exactly where it was not over and its process exited
/// successfully; otherwise it was lost.
pub proof fn sessions_end_well_with_their_process(
    client: RpcClient,
    reaped: Option<bool>,
    result: Result<(), RpcError>,
)
    requires
        call_ensures(RpcClient::finish, (client, reaped), result),
    ensures
        result is Ok <==> !client.terminated && reaped == Some(true),
        result matches Err(error) ==> error.code == ErrorCode::TransportSessionLost,
{
}

/// What came of a command is shown as it is shown by itself; a response that cannot be
/// read, or that is refused, ends the session.
pub proof fn results_are_accepted_as_they_are_shown<F: Fn(&str) -> bool>(
    client: &mut RpcClient,
    parsed: Option<ExecResult>,
    secret: &F,
    result: Result<ExecResult, RpcError>,
)
    requires
        call_ensures(RpcClient::exec::<F>, (client, parsed, secret), result),
    ensures
        result is Ok <==> (parsed matches Some(received) && encode_utf8(received.stdout@).len()
            <= 1048576 && encode_utf8(received.stderr@).len() <= 1048576),
        result matches Ok(shown) ==> {
            let received = parsed->0;
            &&& shown.exit_code == received.exit_code
            &&& shown.duration_ms == received.duration_ms
            &&& shown.stdout_lossy == received.stdout_lossy
            &&& shown.stderr_lossy == received.stderr_lossy
            &&& shown.stdout_redacted <==> received.stdout_redacted || flagged(
                *secret,
                received.stdout@,
            )
            &&& shown.stderr_redacted <==> received.stderr_redacted || flagged(
                *secret,
                received.stderr@,
            )
            &&& !shown.stdout_redacted ==> shown.stdout@ == received.stdout@
            &&& !shown.stderr_redacted ==> shown.stderr@ == received.stderr@
            &&& shown.stdout_redacted ==> shown.stdout@ == "[redacted secret-shaped output]"@
            &&& shown.stderr_redacted ==> shown.stderr@ == "[redacted secret-shaped output]"@
        },
        final(client).terminated <==> old(client).terminated || result is Err,
{
}

// ---------------------------------------------------------------------------
// Responses
// ---------------------------------------------------------------------------

/// Whether a session goes on after an answer that was accepted, and is over after one
/// that was not.
pub open spec fn goes_on(before: RpcClient, after: RpcClient, accepted: bool) -> bool {
    &&& after.hello == before.hello
    &&& after.next_id == before.next_id
    &&& after.terminated <==> before.terminated || !accepted
}

/// The manifest in an answer is its text `toml`, where nothing in the answer is secret;
/// there is none in any other answer.
pub proof fn manifests_are_read_as_they_were_sent<F: Fn(&str) -> bool>(
    data: &JsonValue,
    secret: &F,
    result: Result<&str, RpcError>,
)
    requires
        call_ensures(rpc_client::read_manifest_text::<F>, (data, secret), result),
        json::distinct_fields(data@),
    ensures
        result matches Ok(said) ==> !secret::holds_secret(*secret, data@) && (
        data@ matches Json::Object(entries) && at(entries, "toml"@, Json::Text(said@))),
        result matches Err(error) ==> {
            &&& error.code == ErrorCode::ProtocolMalformed
            &&& secret::holds_secret(*secret, data@) || !(data@ is Object) || forall|
                said: Seq<char>,
            |
                !(#[trigger] at(data@->Object_0, "toml"@, Json::Text(said)))
        },
{
    if let Json::Object(entries) = data@ {
        fields_are_found_where_they_stand(entries, "toml"@);
    }
}

/// A manifest is accepted exactly where its text could be read, is what the manifest is
/// written as, and is about the machine that said hello and that was expected.
pub proof fn manifests_are_accepted_of_the_expected_machine<F: Fn(&str) -> bool>(
    client: &mut RpcClient,
    data: &JsonValue,
    parsed: &Option<ParsedManifest>,
    expected: &ExpectedPeer,
    secret: &F,
    read: Result<&str, RpcError>,
    bound: Result<(), RpcError>,
    result: Result<(), RpcError>,
)
    requires
        call_ensures(
            RpcClient::machine_manifest::<F>,
            (client, data, parsed, expected, secret),
            result,
        ),
        call_ensures(rpc_client::read_manifest_text::<F>, (data, secret), read),
        *parsed is Some ==> call_ensures(
            validate_hello_manifest_binding,
            (&old(client).hello, &parsed->0.identity, expected),
            bound,
        ),
    ensures
        result is Ok <==> (read matches Ok(said) && (*parsed matches Some(manifest)
            && text::optional_text(manifest.canonical_text) == Some(said@) && bound is Ok)),
        result matches Err(error) ==> (error.code == ErrorCode::MachineManifestInvalid <==> read
            is Ok && *parsed is None),
        result matches Err(error) ==> error.code == ErrorCode::ProtocolMalformed || error.code
            == ErrorCode::MachineManifestInvalid,
        goes_on(*old(client), *final(client), result is Ok),
{
}

/// A status is accepted exactly where nothing in the answer is secret and what was read
/// of it is a report that makes sense of the machine that said hello.
pub proof fn statuses_are_accepted_of_the_machine_itself<F: Fn(&str) -> bool>(
    client: &mut RpcClient,
    data: &JsonValue,
    parsed: &Option<MachineStatus>,
    secret: &F,
    valid: Result<(), StatusError>,
    result: Result<(), RpcError>,
)
    requires
        call_ensures(RpcClient::machine_status::<F>, (client, data, parsed, secret), result),
        *parsed is Some ==> call_ensures(
            MachineStatus::validate_for_client::<F>,
            (&parsed->0, old(client).hello.machine_id, secret),
            valid,
        ),
    ensures
        result is Ok <==> !secret::holds_secret(*secret, data@) && *parsed is Some && valid is Ok,
        result matches Err(error) ==> error.code == ErrorCode::ProtocolMalformed,
        goes_on(*old(client), *final(client), result is Ok),
{
}

/// A worker's check of itself is accepted exactly where nothing in the answer is secret
/// and the report that was read of it is acceptable by itself; it is handed on as it is.
pub proof fn checks_are_accepted_by_their_report<F: Fn(&str) -> bool, P: Fn(&str) -> bool>(
    client: &mut RpcClient,
    data: &JsonValue,
    parsed: Option<WorkerDoctorReport>,
    secret: &F,
    probe_id: &P,
    valid: Result<(), RpcError>,
    result: Result<WorkerDoctorReport, RpcError>,
    read: Result<WorkerDoctorReport, RpcError>,
)
    requires
        call_ensures(
            RpcClient::machine_doctor::<F, P>,
            (client, data, parsed, secret, probe_id),
            result,
        ),
        call_ensures(
            WorkerDoctorReport::from_remote_value::<F, P>,
            (data, parsed, secret, probe_id),
            read,
        ),
        parsed is Some ==> call_ensures(
            WorkerDoctorReport::validate_for_client::<F, P>,
            (&parsed->0, secret, probe_id),
            valid,
        ),
    ensures
        result is Ok <==> !secret::holds_secret(*secret, data@) && parsed is Some && valid is Ok,
        result matches Ok(report) ==> parsed == Some(report),
        result matches Err(error) ==> error.code == ErrorCode::ProtocolMalformed,
        read is Ok <==> result is Ok,
        read matches Ok(report) ==> parsed == Some(report),
        goes_on(*old(client), *final(client), result is Ok),
{
}

/// A session goes on where a request was written; a failure to write it ends the session.
pub proof fn requests_that_were_not_written_end_the_session(
    client: &mut RpcClient,
    written: Result<(), FrameError>,
    result: Result<(), RpcError>,
)
    requires
        call_ensures(RpcClient::request_written, (client, written), result),
    ensures
        result is Ok <==> written is Ok,
        goes_on(*old(client), *final(client), written is Ok),
        result matches Err(error) ==> (error.code == ErrorCode::TransportSessionLost <==> (
        written matches Err(failure) && failure.kind == FrameErrorKind::Io)),
        result matches Err(error) ==> error.code == ErrorCode::TransportSessionLost || error.code
            == ErrorCode::ProtocolMalformed,
{
}

/// A worker says that it could not do what was asked with one diagnostic, of the code for
/// that, the message for that, and nothing more.
pub proof fn failures_are_told_in_one_way(
    errors: &[RpcDiagnostic],
    names: &ErrorCodeNames,
    failed: bool,
)
    requires
        call_ensures(rpc_client::is_remote_execution_failure, (errors, names), failed),
    ensures
        failed <==> {
            &&& errors@.len() == 1
            &&& errors@[0]@.code == names.remote_execution_failed@
            &&& errors@[0]@.message == "the worker could not complete the RPC method"@
            &&& errors@[0]@.details is None
        },
{
    if errors@.len() == 1 {
        assert(frame::all_diagnostics(errors@)[0] == errors@[0]@);
    }
}

/// Only a lost session has an exit status of its own.
pub proof fn lost_sessions_have_an_exit_status(
    failure: FrameError,
    told: RpcError,
    error: &RpcError,
    status: Option<i32>,
)
    requires
        call_ensures(RpcError::frame, (failure,), told),
        call_ensures(RpcError::exit_code, (error,), status),
    ensures
        told.code == if failure.kind == FrameErrorKind::Io {
            ErrorCode::TransportSessionLost
        } else {
            ErrorCode::ProtocolMalformed
        },
        status is Some <==> error.code == ErrorCode::TransportSessionLost,
        status is Some ==> status->0 == 3,
{
}

/// A worker reports its findings exactly where a controller would accept the report on
/// them: there are one to sixty-four, each of which it takes, no two of one identifier.
pub proof fn findings_are_reported_where_they_are_accepted<
    F: Fn(&str) -> bool,
    P: Fn(&str) -> bool,
>(
    findings: Vec<WorkerDoctorFinding>,
    secret: &F,
    probe_id: &P,
    result: Result<WorkerDoctorReport, HandlerError>,
)
    requires
        call_ensures(rpc_server::doctor_report::<F, P>, (findings, secret, probe_id), result),
    ensures
        result is Ok <==> {
            &&& 1 <= findings@.len() <= 64
            &&& forall|i: int|
                0 <= i < findings@.len() ==> takes_finding(
                    *secret,
                    *probe_id,
                    #[trigger] findings@[i],
                )
            &&& forall|i: int, j: int|
                0 <= i < j < findings@.len() ==> (#[trigger] findings@[i]).id@ != (
                #[trigger] findings@[j]).id@
        },
        result matches Ok(report) ==> report.findings == findings && report.coverage@
            == "phase1_minimum"@ && !report.complete,
        result matches Err(error) ==> error == HandlerError::Remote,
{
    assert forall|i: int| 0 <= i < findings@.len() implies rpc_payload::acceptable_finding(
        *secret,
        *probe_id,
        #[trigger] findings@[i],
    ) == takes_finding(*secret, *probe_id, findings@[i]) by {
        lemma_takes_finding(*secret, *probe_id, findings@[i]);
    }
}

/// Parameters are empty exactly where they are an object without fields.
pub proof fn parameters_are_empty_without_fields(
    params: &JsonValue,
    result: Result<(), HandlerError>,
)
    requires
        call_ensures(rpc_server::parse_empty, (params,), result),
    ensures
        result is Ok <==> (params@ matches Json::Object(entries) && entries.len() == 0),
        result matches Err(error) ==> error == HandlerError::Malformed,
{
    if let Json::Object(entries) = params@ {
        if entries.len() == 0 {
            assert(entries =~= seq![]);
        }
    }
}

/// A value of a worker is accepted exactly where nothing in it is secret.
pub proof fn values_are_accepted_without_secrets<F: Fn(&str) -> bool>(
    value: &JsonValue,
    secret: &F,
    found: bool,
    result: Result<(), RpcError>,
)
    requires
        call_ensures(secret::remote_value_contains_secret::<F>, (value, secret), found),
        call_ensures(rpc_payload::validate_remote_value::<F>, (value, secret), result),
    ensures
        result is Ok <==> !found,
        result matches Err(error) ==> error.code == ErrorCode::ProtocolMalformed,
{
}

/// Whether a text holds another.
pub open spec fn says(text: Seq<char>, part: Seq<char>) -> bool {
    exists|i: int|
        0 <= i <= text.len() - part.len() && #[trigger] text.subrange(i, i + part.len()) == part
}

/// A worker that cannot be spoken with is told both ranges and both schemas.
pub proof fn incompatible_workers_are_told_why(
    hello: &ServerHello,
    names: &ErrorCodeNames,
    error: RpcDiagnostic,
)
    requires
        call_ensures(incompatible_server_hello_diagnostic, (hello, names), error),
    ensures
        error@.code == names.protocol_incompatible@,
        error@.details is None,
        ({
            let worker = "], worker protocol range ["@ + number::decimal(
                hello.protocol_min as nat,
            ) + ", "@ + number::decimal(hello.protocol_max as nat)
                + "], controller manifest schema "@;
            let schema = ", worker manifest schema "@ + number::decimal(
                hello.manifest_schema_version as nat,
            );
            says(error@.message, worker) && says(error@.message, schema)
        }),
{
    let message = error@.message;
    let start = "controller protocol range ["@ + number::decimal(1) + ", "@ + number::decimal(1);
    let worker = "], worker protocol range ["@ + number::decimal(hello.protocol_min as nat) + ", "@
        + number::decimal(hello.protocol_max as nat) + "], controller manifest schema "@;
    let schema = ", worker manifest schema "@ + number::decimal(
        hello.manifest_schema_version as nat,
    );
    let middle = number::decimal(rpc::MANIFEST_SCHEMA_VERSION as nat);
    assert(message =~= start + worker + middle + schema);
    assert(message.subrange(start.len() as int, (start.len() + worker.len()) as int) =~= worker);
    let at = (start.len() + worker.len() + middle.len()) as int;
    assert(message.subrange(at, at + schema.len()) =~= schema);
}

/// Output is hidden exactly where it is marked or flagged, and is then marked; other output
/// stays as it is.
pub proof fn output_is_hidden_where_it_is_flagged<F: Fn(&str) -> bool>(
    capture: &mut String,
    redacted: &mut bool,
    secret: &F,
)
    requires
        call_ensures(
            rpc_payload::sanitize_remote_capture::<F>,
            (capture, redacted, secret),
            (),
        ),
    ensures
        *final(redacted) <==> *old(redacted) || flagged(*secret, old(capture)@),
        !*final(redacted) ==> final(capture)@ == old(capture)@,
        *final(redacted) ==> final(capture)@ == "[redacted secret-shaped output]"@,
{
}

} // verus!
