//! The worker's side of a session: what to make of what a controller sent, and
//! what to answer.

use crate::frame;
use crate::frame::{DiagnosticModel, Frame, FrameError, FrameErrorKind, FrameModel};
use crate::frame::{RpcDiagnostic, ServerHello};
use crate::json;
use crate::json::{get, Json, JsonValue};
use crate::number::numbered;
use crate::rpc;
use crate::rpc::{ErrorCode, ErrorCodeNames, RpcError};
use crate::rpc::{
    MAX_EXEC_CAPTURE_BYTES, PROTOCOL_MAX, PROTOCOL_MIN, REDACTED_OUTPUT,
    REMOTE_EXECUTION_FAILED_MESSAGE,
};
use crate::rpc_client;
use crate::rpc_payload;
use crate::rpc_payload::{
    canonical_authorized_public_key, validate_exec_argv, ExecResult, WorkerDoctorFinding,
    WorkerDoctorReport,
};
use crate::secret;
use crate::secret::ask;
use crate::text;
use crate::text::{decode_chars, same_text};
use vstd::prelude::*;
use vstd::slice::slice_subrange;

verus! {

/// What a controller did wrong.
#[derive(Clone, Copy, Debug, PartialEq, Eq, Structural)]
pub enum ProtocolFault {
    /// It chose a protocol that the worker does not speak.
    Incompatible,
    /// It sent something that is no frame, or not the frame that was due.
    Malformed,
}

/// The end of a session: what to send before it, and what it is.
#[derive(Debug)]
pub struct Ending {
    pub reply: Option<Frame>,
    pub result: Result<(), RpcError>,
}

/// The failure that a fault ends a session with.
pub open spec fn fault_error(fault: ProtocolFault) -> RpcError {
    match fault {
        ProtocolFault::Incompatible => RpcError {
            code: ErrorCode::ProtocolIncompatible,
            message: "the selected RPC protocol is incompatible",
        },
        ProtocolFault::Malformed => RpcError {
            code: ErrorCode::ProtocolMalformed,
            message: "the RPC peer sent a malformed frame",
        },
    }
}

/// What a controller is told about its fault.
pub open spec fn fault_frame(
    id: Seq<char>,
    fault: ProtocolFault,
    names: ErrorCodeNames,
) -> FrameModel {
    FrameModel::Error {
        id,
        errors: seq![
            DiagnosticModel {
                code: match fault {
                    ProtocolFault::Incompatible => names.protocol_incompatible@,
                    ProtocolFault::Malformed => names.protocol_malformed@,
                },
                message: fault_error(fault).message@,
                details: None,
            },
        ],
    }
}

/// A session that ends with a fault, which the controller is told about.
pub open spec fn ends_with_fault(
    ending: Ending,
    id: Seq<char>,
    fault: ProtocolFault,
    names: ErrorCodeNames,
) -> bool {
    &&& ending.reply matches Some(reply) && reply@ == fault_frame(id, fault, names)
    &&& ending.result == Err::<(), _>(fault_error(fault))
}

/// A session that ends without a word.
pub open spec fn ends_silently(ending: Ending, result: Result<(), RpcError>) -> bool {
    ending.reply is None && ending.result == result
}

fn single(error: RpcDiagnostic) -> (errors: Vec<RpcDiagnostic>)
    ensures
        frame::all_diagnostics(errors@) == seq![error@],
{
    let mut errors: Vec<RpcDiagnostic> = Vec::new();
    errors.push(error);
    assert(frame::all_diagnostics(errors@) =~= seq![error@]);
    errors
}

/// Ends a session because of a fault.
pub fn protocol_failure(id: &str, fault: ProtocolFault, names: &ErrorCodeNames) -> (ending: Ending)
    ensures
        ends_with_fault(ending, id@, fault, *names),
{
    let (name, error) = match fault {
        ProtocolFault::Incompatible => (
            names.protocol_incompatible.as_str(),
            RpcError::new(
                ErrorCode::ProtocolIncompatible,
                "the selected RPC protocol is incompatible",
            ),
        ),
        ProtocolFault::Malformed => (
            names.protocol_malformed.as_str(),
            RpcError::new(ErrorCode::ProtocolMalformed, "the RPC peer sent a malformed frame"),
        ),
    };
    Ending {
        reply: Some(
            Frame::Error {
                id: id.to_owned(),
                errors: single(RpcDiagnostic::new(name, error.message)),
            },
        ),
        result: Err(error),
    }
}

// ---------------------------------------------------------------------------
// The session
// ---------------------------------------------------------------------------

/// How a worker introduces itself.
pub fn server_hello(
    machine_id: u128,
    name: &str,
    manifest_schema_version: u64,
    styrn_version: &str,
) -> (hello: Frame)
    ensures
        hello@ == (FrameModel::ServerHello {
            protocol_min: PROTOCOL_MIN,
            protocol_max: PROTOCOL_MAX,
            styrn_version: styrn_version@,
            machine_id,
            name: name@,
            manifest_schema_version,
        }),
{
    Frame::ServerHello(
        ServerHello {
            protocol_min: PROTOCOL_MIN,
            protocol_max: PROTOCOL_MAX,
            styrn_version: styrn_version.to_owned(),
            machine_id,
            name: name.to_owned(),
            manifest_schema_version,
        },
    )
}

/// A session with a controller: the number of the request that is due.
#[derive(Debug)]
pub struct ServerSession {
    pub next_id: u64,
}

/// A request to be handled.
#[derive(Debug)]
pub struct Call {
    pub id: String,
    pub method: String,
    pub params: JsonValue,
}

/// Whether a controller says that it cannot speak with this worker.
pub open spec fn declines(frame: FrameModel, names: ErrorCodeNames) -> bool {
    &&& frame matches FrameModel::Error { id, errors }
    &&& id == "hello"@
    &&& errors.len() == 1
    &&& errors[0].code == names.protocol_incompatible@
    &&& errors[0].details is None
}

/// What a worker makes of the answer to its hello: a session where a protocol
/// was chosen that it speaks, else the end.
pub open spec fn selected(
    received: Result<Option<FrameModel>, FrameError>,
    names: ErrorCodeNames,
    result: Result<ServerSession, Ending>,
) -> bool {
    match received {
        Ok(Some(FrameModel::ClientHello { protocol, .. })) => if PROTOCOL_MIN <= protocol
            <= PROTOCOL_MAX {
            result == Ok::<_, Ending>(ServerSession { next_id: 1 })
        } else {
            result matches Err(ending) && ends_with_fault(
                ending,
                "hello"@,
                ProtocolFault::Incompatible,
                names,
            )
        },
        Ok(None) => result matches Err(ending) && ends_silently(ending, Ok(())),
        Err(error) => if error.kind == FrameErrorKind::Io {
            result matches Err(ending) && ends_silently(ending, Err(rpc::frame_failure(error)))
        } else {
            result matches Err(ending) && ends_with_fault(
                ending,
                "hello"@,
                ProtocolFault::Malformed,
                names,
            )
        },
        Ok(Some(frame)) => if declines(frame, names) {
            result matches Err(ending) && ends_silently(ending, Ok(()))
        } else {
            result matches Err(ending) && ends_with_fault(
                ending,
                "hello"@,
                ProtocolFault::Malformed,
                names,
            )
        },
    }
}

/// What a worker makes of a frame that should be the request numbered
/// `next_id`.
pub open spec fn due(
    next_id: u64,
    received: Result<Option<FrameModel>, FrameError>,
    names: ErrorCodeNames,
    result: Result<Call, Ending>,
) -> bool {
    match received {
        Ok(None) => result matches Err(ending) && ends_silently(ending, Ok(())),
        Err(error) => if error.kind == FrameErrorKind::Io {
            result matches Err(ending) && ends_silently(ending, Err(rpc::frame_failure(error)))
        } else {
            result matches Err(ending) && ends_with_fault(
                ending,
                "hello"@,
                ProtocolFault::Malformed,
                names,
            )
        },
        Ok(Some(FrameModel::Request { id, method, params })) => if id != rpc_client::request_id(
            next_id as nat,
        ) {
            result matches Err(ending) && ends_with_fault(
                ending,
                id,
                ProtocolFault::Malformed,
                names,
            )
        } else if next_id == u64::MAX {
            result matches Err(ending) && ends_silently(
                ending,
                Err(rpc::malformed("RPC request identifier overflow")),
            )
        } else {
            result matches Ok(call) && call.id@ == id && call.method@ == method && call.params@
                == params
        },
        Ok(Some(_)) => result matches Err(ending) && ends_with_fault(
            ending,
            "hello"@,
            ProtocolFault::Malformed,
            names,
        ),
    }
}

/// Why a request was not answered with data.
#[derive(Clone, Copy, Debug, PartialEq, Eq, Structural)]
pub enum HandlerError {
    /// The request is not one that the protocol has.
    Malformed,
    /// The worker could not do what was asked.
    Remote,
}

/// The response of a worker that could not do what was asked.
pub open spec fn failure_response(id: Seq<char>, names: ErrorCodeNames) -> FrameModel {
    FrameModel::Response {
        id,
        ok: false,
        data: None,
        errors: seq![
            DiagnosticModel {
                code: names.remote_execution_failed@,
                message: REMOTE_EXECUTION_FAILED_MESSAGE@,
                details: None,
            },
        ],
    }
}

/// The response of a worker that did what was asked.
pub open spec fn success_response(id: Seq<char>, data: Json) -> FrameModel {
    FrameModel::Response { id, ok: true, data: Some(data), errors: seq![] }
}

fn remote_failure_response(id: String, names: &ErrorCodeNames) -> (response: Frame)
    ensures
        response@ == failure_response(id@, *names),
{
    Frame::Response {
        id,
        ok: false,
        data: None,
        errors: single(
            RpcDiagnostic::new(
                names.remote_execution_failed.as_str(),
                REMOTE_EXECUTION_FAILED_MESSAGE,
            ),
        ),
    }
}

fn is_declining(frame: &Frame, names: &ErrorCodeNames) -> (holds: bool)
    ensures
        holds == declines(frame@, *names),
{
    match frame {
        Frame::Error { id, errors } => {
            if errors.len() != 1 || !same_text(id.as_str(), "hello") {
                return false;
            }
            assert(frame::all_diagnostics(errors@)[0] == errors@[0]@);
            same_text(errors[0].code.as_str(), names.protocol_incompatible.as_str())
                && errors[0].details.is_none()
        },
        _ => false,
    }
}

impl ServerSession {
    /// Opens the session with the answer to the worker's hello.
    pub fn select(received: Result<Option<Frame>, FrameError>, names: &ErrorCodeNames) -> (result:
        Result<ServerSession, Ending>)
        ensures
            selected(rpc_client::received_model(received), *names, result),
    {
        match received {
            Ok(Some(Frame::ClientHello(selection))) => {
                if selection.protocol < PROTOCOL_MIN || selection.protocol > PROTOCOL_MAX {
                    return Err(protocol_failure("hello", ProtocolFault::Incompatible, names));
                }
                Ok(ServerSession { next_id: 1 })
            },
            Ok(Some(frame)) => {
                if is_declining(&frame, names) {
                    return Err(Ending { reply: None, result: Ok(()) });
                }
                Err(protocol_failure("hello", ProtocolFault::Malformed, names))
            },
            Ok(None) => Err(Ending { reply: None, result: Ok(()) }),
            Err(error) => {
                if error.kind() == FrameErrorKind::Io {
                    return Err(Ending { reply: None, result: Err(RpcError::frame(error)) });
                }
                Err(protocol_failure("hello", ProtocolFault::Malformed, names))
            },
        }
    }

    /// Takes the next request.
    pub fn receive(
        &mut self,
        received: Result<Option<Frame>, FrameError>,
        names: &ErrorCodeNames,
    ) -> (result: Result<Call, Ending>)
        ensures
            due(old(self).next_id, rpc_client::received_model(received), *names, result),
            final(self).next_id == if result is Ok {
                (old(self).next_id + 1) as u64
            } else {
                old(self).next_id
            },
    {
        let frame = match received {
            Ok(Some(frame)) => frame,
            Ok(None) => {
                return Err(Ending { reply: None, result: Ok(()) });
            },
            Err(error) => {
                if error.kind() == FrameErrorKind::Io {
                    return Err(Ending { reply: None, result: Err(RpcError::frame(error)) });
                }
                return Err(protocol_failure("hello", ProtocolFault::Malformed, names));
            },
        };
        match frame {
            Frame::Request { id, method, params } => {
                let expected = numbered("c", self.next_id);
                if !same_text(id.as_str(), expected.as_str()) {
                    return Err(protocol_failure(id.as_str(), ProtocolFault::Malformed, names));
                }
                match self.next_id.checked_add(1) {
                    Some(next_id) => {
                        self.next_id = next_id;
                    },
                    None => {
                        return Err(
                            Ending {
                                reply: None,
                                result: Err(
                                    RpcError::malformed("RPC request identifier overflow"),
                                ),
                            },
                        );
                    },
                }
                Ok(Call { id, method, params })
            },
            _ => Err(protocol_failure("hello", ProtocolFault::Malformed, names)),
        }
    }
}

/// The answer to the request `id`, given what came of handling it.
pub fn answer(id: &str, handled: Result<JsonValue, HandlerError>, names: &ErrorCodeNames) -> (result:
    Result<Frame, Ending>)
    ensures
        match handled {
            Ok(data) => result matches Ok(response) && response@ == success_response(id@, data@),
            Err(HandlerError::Remote) => result matches Ok(response) && response@
                == failure_response(id@, *names),
            Err(HandlerError::Malformed) => result matches Err(ending) && ends_with_fault(
                ending,
                id@,
                ProtocolFault::Malformed,
                *names,
            ),
        },
{
    match handled {
        Ok(data) => {
            let errors: Vec<RpcDiagnostic> = Vec::new();
            assert(frame::all_diagnostics(errors@) =~= seq![]);
            Ok(Frame::Response { id: id.to_owned(), ok: true, data: Some(data), errors })
        },
        Err(HandlerError::Remote) => Ok(remote_failure_response(id.to_owned(), names)),
        Err(HandlerError::Malformed) => Err(
            protocol_failure(id, ProtocolFault::Malformed, names),
        ),
    }
}

/// What to do after the answer to request `id` was written, or was not: an
/// answer that was too large is replaced by a failure.
pub fn answered(id: &str, written: Result<(), FrameError>, names: &ErrorCodeNames) -> (result: Result<
    Option<Frame>,
    RpcError,
>)
    ensures
        match written {
            Ok(()) => result == Ok::<Option<Frame>, RpcError>(None),
            Err(error) => if error.kind == FrameErrorKind::Oversize {
                result matches Ok(Some(response)) && response@ == failure_response(id@, *names)
            } else {
                result == Err::<Option<Frame>, _>(rpc::frame_failure(error))
            },
        },
{
    match written {
        Ok(()) => Ok(None),
        Err(error) => {
            if error.kind() == FrameErrorKind::Oversize {
                Ok(Some(remote_failure_response(id.to_owned(), names)))
            } else {
                Err(RpcError::frame(error))
            }
        },
    }
}

// ---------------------------------------------------------------------------
// Requests
// ---------------------------------------------------------------------------

/// What a controller can ask of a worker.
#[derive(Debug)]
pub enum WorkerRequest {
    Manifest,
    Status,
    Doctor { authorized_public_key: String },
    Exec { argv: Vec<String> },
}

/// The only parameter of a request: that of its name in an object with no other
/// field, or the only item of an array.
pub open spec fn only_param(params: Json, name: Seq<char>) -> Option<Json> {
    match params {
        Json::Object(entries) => if entries.len() == 1 {
            json::field(entries, name)
        } else {
            None
        },
        Json::Array(items) => if items.len() == 1 {
            Some(items[0])
        } else {
            None
        },
        _ => None,
    }
}

/// Every item is a text.
pub open spec fn all_texts(items: Seq<Json>) -> bool {
    forall|i: int| 0 <= i < items.len() ==> (#[trigger] items[i]) is Text
}

/// The texts of items.
pub open spec fn texts_of(items: Seq<Json>) -> Seq<Seq<char>> {
    items.map_values(|item: Json| item->Text_0)
}

/// What a request asks for, or that the protocol has no such request.
pub open spec fn asks<F: Fn(&str) -> bool>(
    secret: F,
    method: Seq<char>,
    params: Json,
    result: Result<WorkerRequest, HandlerError>,
) -> bool {
    let no_params = params == Json::Object(seq![]);
    let key = only_param(params, "authorized_public_key"@);
    let argv = only_param(params, "argv"@);
    match result {
        Ok(WorkerRequest::Manifest) => method == "machine.manifest"@ && no_params,
        Ok(WorkerRequest::Status) => method == "machine.status"@ && no_params,
        Ok(WorkerRequest::Doctor { authorized_public_key }) => {
            &&& method == "machine.doctor"@
            &&& key matches Some(Json::Text(key))
            &&& rpc_payload::canonical_key(key) == Some(authorized_public_key@)
        },
        Ok(WorkerRequest::Exec { argv: arguments }) => {
            &&& method == "exec.run"@
            &&& argv matches Some(Json::Array(items))
            &&& all_texts(items)
            &&& text::string_views(arguments@) == texts_of(items)
            &&& rpc_payload::acceptable_argv(secret, arguments@)
        },
        Err(error) => {
            &&& error == HandlerError::Malformed
            &&& !(method == "machine.manifest"@ && no_params)
            &&& !(method == "machine.status"@ && no_params)
            &&& method == "machine.doctor"@ && key is Some && key->0 is Text
                ==> rpc_payload::canonical_key(key->0->Text_0) is None
            &&& method == "exec.run"@ && argv is Some && argv->0 is Array && all_texts(
                argv->0->Array_0,
            ) ==> forall|arguments: Seq<String>|
                #[trigger] text::string_views(arguments) == texts_of(argv->0->Array_0)
                    ==> !rpc_payload::acceptable_argv(secret, arguments)
        },
    }
}

/// Accepts parameters that hold nothing.
pub fn parse_empty(params: &JsonValue) -> (result: Result<(), HandlerError>)
    ensures
        result == (if params@ == Json::Object(seq![]) {
            Ok::<(), HandlerError>(())
        } else {
            Err(HandlerError::Malformed)
        }),
{
    proof {
        json::lemma_model(*params);
    }
    match params {
        JsonValue::Object(entries) => {
            if entries.len() == 0 {
                assert(params@->Object_0 =~= seq![]);
                Ok(())
            } else {
                assert(params@->Object_0.len() > 0);
                Err(HandlerError::Malformed)
            }
        },
        _ => Err(HandlerError::Malformed),
    }
}

fn find_only_param<'a>(params: &'a JsonValue, name: &str) -> (found: Option<&'a JsonValue>)
    ensures
        match found {
            Some(found) => only_param(params@, name@) == Some(found@),
            None => only_param(params@, name@) is None,
        },
{
    proof {
        json::lemma_model(*params);
    }
    match params {
        JsonValue::Object(entries) => {
            if entries.len() != 1 {
                return None;
            }
            get(entries, name)
        },
        JsonValue::Array(items) => {
            if items.len() != 1 {
                return None;
            }
            assert(params@->Array_0[0] == items@[0]@);
            Some(&items[0])
        },
        _ => None,
    }
}

fn read_arguments(value: &JsonValue) -> (result: Option<Vec<String>>)
    ensures
        match result {
            Some(arguments) => {
                &&& value@ matches Json::Array(items)
                &&& all_texts(items)
                &&& text::string_views(arguments@) == texts_of(items)
            },
            None => !(value@ matches Json::Array(items) && all_texts(items)),
        },
{
    proof {
        json::lemma_model(*value);
    }
    match value {
        JsonValue::Array(items) => {
            let ghost modelled = json::items_model(items@);
            let mut arguments: Vec<String> = Vec::new();
            for i in 0..items.len()
                invariant
                    modelled == json::items_model(items@),
                    value@ == Json::Array(modelled),
                    arguments@.len() == i,
                    forall|k: int|
                        0 <= k < i ==> (#[trigger] modelled[k]) == Json::Text(arguments@[k]@),
            {
                assert(modelled[i as int] == items@[i as int]@);
                match &items[i] {
                    JsonValue::Text(argument) => {
                        arguments.push(argument.clone());
                    },
                    _ => {
                        assert(!(modelled[i as int] is Text));
                        assert(value@->Array_0[i as int] == modelled[i as int]);
                        return None;
                    },
                }
            }
            assert(text::string_views(arguments@) =~= texts_of(modelled));
            Some(arguments)
        },
        _ => None,
    }
}

/// Two lists of strings that say the same are acceptable alike.
proof fn lemma_acceptable_alike<F: Fn(&str) -> bool>(
    secret: F,
    left: Seq<String>,
    right: Seq<String>,
)
    requires
        text::string_views(left) == text::string_views(right),
        rpc_payload::acceptable_argv(secret, left),
    ensures
        rpc_payload::acceptable_argv(secret, right),
{
    assert(left.len() == text::string_views(left).len());
    assert(right.len() == text::string_views(right).len());
    assert forall|i: int| 0 <= i < left.len() implies #[trigger] left[i]@ == right[i]@ by {
        assert(text::string_views(left)[i] == left[i]@);
        assert(text::string_views(right)[i] == right[i]@);
    }
    assert forall|i: int|
        #![trigger right[i]]
        0 <= i < right.len() implies text::byte_len(right[i]@) <= rpc::MAX_EXEC_ARGUMENT_BYTES
        && !secret::detects(secret, right[i]@) by {
        assert(left[i]@ == right[i]@);
    }
    lemma_same_bytes(left, right, left.len());
}

proof fn lemma_same_bytes(left: Seq<String>, right: Seq<String>, n: nat)
    requires
        left.len() == right.len(),
        forall|i: int| 0 <= i < left.len() ==> #[trigger] left[i]@ == right[i]@,
    ensures
        rpc_payload::argument_bytes(left, n) == rpc_payload::argument_bytes(right, n),
    decreases n,
{
    if 0 < n <= left.len() {
        lemma_same_bytes(left, right, (n - 1) as nat);
        assert(left[n - 1]@ == right[n - 1]@);
    }
}

/// The names of methods, told apart by their lengths.
proof fn lemma_methods()
    ensures
        "machine.manifest"@.len() == 16,
        "machine.status"@.len() == 14,
        "machine.doctor"@.len() == 14,
        "machine.status"@[8] == 's',
        "machine.doctor"@[8] == 'd',
        "exec.run"@.len() == 8,
{
    reveal_strlit("machine.manifest");
    reveal_strlit("machine.status");
    reveal_strlit("machine.doctor");
    reveal_strlit("exec.run");
}

/// Reads what a request asks for.
pub fn read_request<F: Fn(&str) -> bool>(method: &str, params: &JsonValue, secret: &F) -> (result:
    Result<WorkerRequest, HandlerError>)
    requires
        secret::detector(*secret),
    ensures
        asks(*secret, method@, params@, result),
{
    proof {
        lemma_methods();
    }
    if same_text(method, "machine.manifest") {
        match parse_empty(params) {
            Ok(()) => Ok(WorkerRequest::Manifest),
            Err(error) => Err(error),
        }
    } else if same_text(method, "machine.status") {
        match parse_empty(params) {
            Ok(()) => Ok(WorkerRequest::Status),
            Err(error) => Err(error),
        }
    } else if same_text(method, "machine.doctor") {
        match find_only_param(params, "authorized_public_key") {
            Some(JsonValue::Text(key)) => match canonical_authorized_public_key(key.as_str()) {
                Ok(authorized_public_key) => Ok(WorkerRequest::Doctor { authorized_public_key }),
                Err(_) => Err(HandlerError::Malformed),
            },
            _ => Err(HandlerError::Malformed),
        }
    } else if same_text(method, "exec.run") {
        let value = match find_only_param(params, "argv") {
            Some(value) => value,
            None => {
                return Err(HandlerError::Malformed);
            },
        };
        let argv = match read_arguments(value) {
            Some(argv) => argv,
            None => {
                return Err(HandlerError::Malformed);
            },
        };
        match validate_exec_argv(&argv, secret) {
            Ok(()) => Ok(WorkerRequest::Exec { argv }),
            Err(_) => {
                proof {
                    let items = value@->Array_0;
                    assert forall|arguments: Seq<String>| #[trigger]
                        text::string_views(arguments) == texts_of(
                            items,
                        ) implies !rpc_payload::acceptable_argv(*secret, arguments) by {
                        if rpc_payload::acceptable_argv(*secret, arguments) {
                            lemma_acceptable_alike(*secret, arguments, argv@);
                        }
                    }
                }
                Err(HandlerError::Malformed)
            },
        }
    } else {
        Err(HandlerError::Malformed)
    }
}

/// Whether no report on the findings is one that a controller accepts.
pub open spec fn none_acceptable<F: Fn(&str) -> bool, P: Fn(&str) -> bool>(
    secret: F,
    probe_id: P,
    findings: Vec<WorkerDoctorFinding>,
) -> bool {
    forall|report: WorkerDoctorReport|
        report.findings == findings ==> !#[trigger] rpc_payload::acceptable_report(
            secret,
            probe_id,
            report,
        )
}

/// The report on a worker's check of itself; findings that a controller would
/// not accept are no answer.
pub fn doctor_report<F: Fn(&str) -> bool, P: Fn(&str) -> bool>(
    findings: Vec<WorkerDoctorFinding>,
    secret: &F,
    probe_id: &P,
) -> (result: Result<WorkerDoctorReport, HandlerError>)
    requires
        secret::detector(*secret),
        secret::detector(*probe_id),
    ensures
        match result {
            Ok(report) => {
                &&& report.findings == findings
                &&& report.coverage@ == "phase1_minimum"@
                &&& !report.complete
                &&& rpc_payload::acceptable_report(*secret, *probe_id, report)
            },
            Err(error) => {
                &&& error == HandlerError::Remote
                &&& !rpc_payload::acceptable_findings(*secret, *probe_id, findings@)
                &&& none_acceptable(*secret, *probe_id, findings)
            },
        },
{
    let report = WorkerDoctorReport {
        findings,
        coverage: "phase1_minimum".to_owned(),
        complete: false,
    };
    match report.validate_for_client(secret, probe_id) {
        Ok(()) => Ok(report),
        Err(_) => Err(HandlerError::Remote),
    }
}

// ---------------------------------------------------------------------------
// Commands
// ---------------------------------------------------------------------------

/// What was read from a command's output.
#[derive(Debug)]
pub struct Capture {
    pub bytes: Vec<u8>,
    pub overflow: bool,
}

/// What one read of a command's output gave.
#[derive(Debug)]
pub enum CaptureRead {
    End,
    Interrupted,
    Failed,
    Bytes(Vec<u8>),
}

/// What to do after a read.
#[derive(Clone, Copy, Debug, PartialEq, Eq, Structural)]
pub enum CaptureStep {
    /// Read on.
    Continue,
    /// Tell that the output is over its limit, and read on.
    Overflow,
    /// The output is complete.
    Done,
    /// Tell that the output was lost, and stop.
    Fail,
}

/// What is kept of output: as much of its beginning as the limit allows.
pub open spec fn kept(output: Seq<u8>) -> Seq<u8> {
    if output.len() <= MAX_EXEC_CAPTURE_BYTES {
        output
    } else {
        output.take(MAX_EXEC_CAPTURE_BYTES as int)
    }
}

/// A capture of `output`, all that was read so far.
pub open spec fn captures(capture: Capture, output: Seq<u8>) -> bool {
    &&& capture.bytes@ == kept(output)
    &&& capture.overflow == (output.len() > MAX_EXEC_CAPTURE_BYTES)
}

impl Capture {
    /// A capture of nothing.
    pub fn new() -> (capture: Self)
        ensures
            captures(capture, seq![]),
    {
        Capture { bytes: Vec::new(), overflow: false }
    }

    /// Takes in what a read gave. The overflow is told once.
    pub fn accept(&mut self, read: CaptureRead) -> (step: CaptureStep)
        ensures
            match read {
                CaptureRead::End => step == CaptureStep::Done && *final(self) == *old(self),
                CaptureRead::Interrupted => step == CaptureStep::Continue && *final(self) == *old(
                    self),
                CaptureRead::Failed => step == CaptureStep::Fail && *final(self) == *old(self),
                CaptureRead::Bytes(chunk) => {
                    &&& step == if final(self).overflow && !old(self).overflow {
                        CaptureStep::Overflow
                    } else {
                        CaptureStep::Continue
                    }
                    &&& forall|output: Seq<u8>| #[trigger]
                        captures(*old(self), output) ==> captures(*final(self), output + chunk@)
                },
            },
    {
        match read {
            CaptureRead::End => CaptureStep::Done,
            CaptureRead::Interrupted => CaptureStep::Continue,
            CaptureRead::Failed => CaptureStep::Fail,
            CaptureRead::Bytes(chunk) => {
                let remaining: usize = MAX_EXEC_CAPTURE_BYTES.saturating_sub(self.bytes.len());
                let taken: usize = if chunk.len() < remaining {
                    chunk.len()
                } else {
                    remaining
                };
                let ghost before = *self;
                self.bytes.extend_from_slice(slice_subrange(&chunk, 0, taken));
                let over = chunk.len() > remaining;
                let first = over && !self.overflow;
                if first {
                    self.overflow = true;
                }
                proof {
                    assert(self.bytes@ =~= before.bytes@ + chunk@.take(taken as int));
                    assert forall|output: Seq<u8>| #[trigger] captures(before, output) implies
                        captures(*self, output + chunk@) by {
                        assert(self.bytes@ =~= kept(output + chunk@));
                    }
                }
                if first {
                    CaptureStep::Overflow
                } else {
                    CaptureStep::Continue
                }
            },
        }
    }
}

/// What waiting for a command gave.
#[derive(Clone, Copy, Debug, PartialEq, Eq, Structural)]
pub enum WaitEvent {
    /// It exited, with a code unless a signal ended it.
    Exited { code: Option<i32> },
    Running,
    Failed,
}

/// What to do about a running command.
#[derive(Clone, Copy, Debug, PartialEq, Eq, Structural)]
pub enum ExecStep {
    /// Kill it and give up.
    Kill,
    /// Wait a little and look again.
    Sleep,
    /// Collect its output.
    Collect { code: Option<i32> },
}

/// Decides about a running command: one whose output is over its limit, or lost,
/// is killed, and so is one that cannot be waited for.
pub fn poll_exec(output_failed: bool, waited: WaitEvent) -> (step: ExecStep)
    ensures
        step == if output_failed {
            ExecStep::Kill
        } else {
            match waited {
                WaitEvent::Exited { code } => ExecStep::Collect { code },
                WaitEvent::Running => ExecStep::Sleep,
                WaitEvent::Failed => ExecStep::Kill,
            }
        },
{
    if output_failed {
        return ExecStep::Kill;
    }
    match waited {
        WaitEvent::Exited { code } => ExecStep::Collect { code },
        WaitEvent::Running => ExecStep::Sleep,
        WaitEvent::Failed => ExecStep::Kill,
    }
}

/// The text that `String::from_utf8_lossy` makes of bytes.
pub uninterp spec fn lossy_text(bytes: Seq<u8>) -> Seq<char>;

/// `String::from_utf8_lossy`: where bytes are valid UTF-8, it is the text that
/// they encode; what stands in for other bytes is left unsaid.
#[verifier::external_body]
fn to_lossy_text(bytes: &[u8]) -> (text: String)
    ensures
        text@ == lossy_text(bytes@),
        text::decoded(bytes@) matches Some(exact) ==> text@ == exact,
{
    String::from_utf8_lossy(bytes).into_owned()
}

/// Output as a worker sends it, given its text: the text or the mark of a
/// redaction, and whether it is one.
pub open spec fn sent<F: Fn(&str) -> bool>(secret: F, text: Seq<char>) -> (Seq<char>, bool) {
    if secret::detects(secret, text) {
        (REDACTED_OUTPUT@, true)
    } else {
        (text, false)
    }
}

/// Redacts text that is shaped like a secret.
pub fn redact<F: Fn(&str) -> bool>(text: String, secret: &F) -> (result: (String, bool))
    requires
        secret::detector(*secret),
    ensures
        (result.0@, result.1) == sent(*secret, text@),
{
    if ask(secret, text.as_str()) {
        (REDACTED_OUTPUT.to_owned(), true)
    } else {
        (text, false)
    }
}

/// Output as a worker sends it: its text, whether bytes were lost in it, and
/// whether it was redacted.
pub fn sanitize_capture<F: Fn(&str) -> bool>(bytes: &[u8], secret: &F) -> (result: (
    String,
    bool,
    bool,
))
    requires
        secret::detector(*secret),
    ensures
        (result.0@, result.2) == sent(*secret, lossy_text(bytes@)),
        result.1 == (text::decoded(bytes@) is None),
        text::decoded(bytes@) matches Some(exact) ==> (result.0@, result.2) == sent(*secret, exact),
{
    let lossy = decode_chars(bytes).is_none();
    let text = to_lossy_text(bytes);
    let (text, redacted) = redact(text, secret);
    (text, lossy, redacted)
}

/// What came of a command: nothing where output was over its limit or lost, or
/// where a signal ended the command.
pub fn finish_exec<F: Fn(&str) -> bool>(
    code: Option<i32>,
    stdout: Option<Capture>,
    stderr: Option<Capture>,
    elapsed_ms: u128,
    secret: &F,
) -> (result: Result<ExecResult, HandlerError>)
    requires
        secret::detector(*secret),
    ensures
        match result {
            Ok(done) => {
                &&& code == Some(done.exit_code)
                &&& stdout matches Some(stdout) && !stdout.overflow && (
                    done.stdout@,
                    done.stdout_redacted,
                ) == sent(*secret, lossy_text(stdout.bytes@)) && done.stdout_lossy == (
                text::decoded(stdout.bytes@) is None)
                &&& stderr matches Some(stderr) && !stderr.overflow && (
                    done.stderr@,
                    done.stderr_redacted,
                ) == sent(*secret, lossy_text(stderr.bytes@)) && done.stderr_lossy == (
                text::decoded(stderr.bytes@) is None)
                &&& text::decoded(stdout->0.bytes@) matches Some(exact) ==> (
                    done.stdout@,
                    done.stdout_redacted,
                ) == sent(*secret, exact)
                &&& text::decoded(stderr->0.bytes@) matches Some(exact) ==> (
                    done.stderr@,
                    done.stderr_redacted,
                ) == sent(*secret, exact)
                &&& done.duration_ms == if elapsed_ms <= u64::MAX {
                    elapsed_ms as u64
                } else {
                    u64::MAX
                }
            },
            Err(error) => {
                &&& error == HandlerError::Remote
                &&& code is None || !(stdout matches Some(stdout) && !stdout.overflow) || !(
                stderr matches Some(stderr) && !stderr.overflow)
            },
        },
{
    let stdout = match stdout {
        Some(stdout) => stdout,
        None => {
            return Err(HandlerError::Remote);
        },
    };
    let stderr = match stderr {
        Some(stderr) => stderr,
        None => {
            return Err(HandlerError::Remote);
        },
    };
    if stdout.overflow || stderr.overflow {
        return Err(HandlerError::Remote);
    }
    let exit_code: i32 = match code {
        Some(code) => code,
        None => {
            return Err(HandlerError::Remote);
        },
    };
    let (stdout_text, stdout_lossy, stdout_redacted) = sanitize_capture(&stdout.bytes, secret);
    let (stderr_text, stderr_lossy, stderr_redacted) = sanitize_capture(&stderr.bytes, secret);
    let duration_ms: u64 = if elapsed_ms <= u64::MAX as u128 {
        elapsed_ms as u64
    } else {
        u64::MAX
    };
    Ok(
        ExecResult {
            exit_code,
            stdout: stdout_text,
            stderr: stderr_text,
            duration_ms,
            stdout_lossy,
            stderr_lossy,
            stdout_redacted,
            stderr_redacted,
        },
    )
}

} // verus!
