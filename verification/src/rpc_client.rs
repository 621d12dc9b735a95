//! The controller's side of a session: what to send, and what to make of what
//! was received. One request is outstanding at a time.

use crate::frame;
use crate::frame::{
    ClientHello, DiagnosticModel, Frame, FrameError, FrameModel, RpcDiagnostic, ServerHello,
};
use crate::json;
use crate::json::{get, Json, JsonValue};
use crate::number;
use crate::number::numbered;
use crate::resources;
use crate::resources::MachineStatus;
use crate::rpc;
use crate::rpc::{
    incompatible_server_hello_diagnostic, negotiate_server_hello, validate_hello_manifest_binding,
    ErrorCode, ErrorCodeNames, ExpectedPeer, ManifestIdentity, RpcError,
};
use crate::rpc::REMOTE_EXECUTION_FAILED_MESSAGE;
use crate::rpc_payload;
use crate::rpc_payload::{
    canonical_authorized_public_key, validate_exec_argv, validate_remote_value, ExecResult,
    WorkerDoctorReport,
};
use crate::secret;
use crate::text;
use crate::text::same_text;
use vstd::prelude::*;

verus! {

/// A session with a worker. Once it is terminated the process at the other end
/// is to be aborted, and nothing is sent any more.
#[derive(Debug)]
pub struct RpcClient {
    pub hello: ServerHello,
    pub next_id: u64,
    pub terminated: bool,
}

/// What to do about a worker's first frame.
#[derive(Debug)]
pub enum ConnectStep {
    /// Send `reply`; then the session is open.
    Greet { client: RpcClient, reply: Frame },
    /// Send `reply`, where there is one, and give up.
    Refuse { reply: Option<Frame>, error: RpcError },
}

/// What was received, taken by what it says.
pub open spec fn received_model(received: Result<Option<Frame>, FrameError>) -> Result<
    Option<FrameModel>,
    FrameError,
> {
    match received {
        Ok(Some(frame)) => Ok(Some(frame@)),
        Ok(None) => Ok(None),
        Err(error) => Err(error),
    }
}

/// The greeting that tells a worker that it cannot be spoken with.
pub open spec fn rejection(hello: ServerHello, names: ErrorCodeNames) -> FrameModel {
    FrameModel::Error {
        id: "hello"@,
        errors: seq![
            DiagnosticModel {
                code: names.protocol_incompatible@,
                message: rpc::incompatibility(
                    hello.protocol_min,
                    hello.protocol_max,
                    hello.manifest_schema_version,
                ),
                details: None,
            },
        ],
    }
}

/// What a failure says that is not about one frame.
pub open spec fn refuses(step: ConnectStep, error: RpcError) -> bool {
    step matches ConnectStep::Refuse { reply: None, error: found } && found == error
}

impl RpcClient {
    /// Begins a session with the first frame of a worker. `pre_hello_error_code`
    /// says what it means that a worker closed before its first frame.
    pub fn connect(
        first: Result<Option<Frame>, FrameError>,
        pre_hello_error_code: ErrorCode,
        styrn_version: &str,
        names: &ErrorCodeNames,
    ) -> (step: ConnectStep)
        ensures
            match first {
                Err(error) => refuses(step, rpc::frame_failure(error)),
                Ok(None) => refuses(
                    step,
                    RpcError {
                        code: pre_hello_error_code,
                        message: "the RPC server closed before hello",
                    },
                ),
                Ok(Some(Frame::ServerHello(hello))) => match step {
                    ConnectStep::Greet { client, reply } => {
                        &&& client.hello == hello
                        &&& client.next_id == 1
                        &&& !client.terminated
                        &&& reply matches Frame::ClientHello(chosen)
                        &&& chosen.styrn_version@ == styrn_version@
                        &&& rpc::negotiated(
                            hello.protocol_min,
                            hello.protocol_max,
                            hello.manifest_schema_version,
                            Ok(chosen.protocol),
                        )
                    },
                    ConnectStep::Refuse { reply, error } => {
                        &&& reply matches Some(reply) && reply@ == rejection(hello, *names)
                        &&& rpc::negotiated(
                            hello.protocol_min,
                            hello.protocol_max,
                            hello.manifest_schema_version,
                            Err(error),
                        )
                    },
                },
                Ok(Some(_)) => refuses(
                    step,
                    rpc::malformed("the RPC server did not speak a valid hello first"),
                ),
            },
    {
        let hello = match first {
            Ok(Some(Frame::ServerHello(hello))) => hello,
            Ok(Some(_)) => {
                return ConnectStep::Refuse {
                    reply: None,
                    error: RpcError::malformed("the RPC server did not speak a valid hello first"),
                };
            },
            Ok(None) => {
                return ConnectStep::Refuse {
                    reply: None,
                    error: RpcError::new(
                        pre_hello_error_code,
                        "the RPC server closed before hello",
                    ),
                };
            },
            Err(error) => {
                return ConnectStep::Refuse { reply: None, error: RpcError::frame(error) };
            },
        };
        match negotiate_server_hello(&hello) {
            Ok(protocol) => ConnectStep::Greet {
                client: RpcClient { hello, next_id: 1, terminated: false },
                reply: Frame::ClientHello(
                    ClientHello { protocol, styrn_version: styrn_version.to_owned() },
                ),
            },
            Err(error) => {
                let mut errors: Vec<RpcDiagnostic> = Vec::new();
                errors.push(incompatible_server_hello_diagnostic(&hello, names));
                let reply = Frame::Error { id: "hello".to_owned(), errors };
                assert(frame::all_diagnostics(errors@) =~= rejection(hello, *names)->Error_errors);
                ConnectStep::Refuse { reply: Some(reply), error }
            },
        }
    }

    /// How the worker introduced itself.
    pub fn server_hello(&self) -> (hello: &ServerHello)
        ensures
            *hello == self.hello,
    {
        &self.hello
    }

    fn terminate(&mut self, error: RpcError) -> (result: RpcError)
        ensures
            result == error,
            final(self).terminated,
            final(self).hello == old(self).hello,
            final(self).next_id == old(self).next_id,
    {
        self.terminated = true;
        error
    }
}

/// The identifier of the request with number `n`.
pub open spec fn request_id(n: nat) -> Seq<char> {
    "c"@ + number::decimal(n)
}

/// What to send for a request, or why nothing is sent.
pub open spec fn request_frame(
    client: RpcClient,
    method: Seq<char>,
    params: Json,
) -> Result<FrameModel, RpcError> {
    if client.terminated {
        Err(rpc::lost("the RPC session was already terminated"))
    } else if client.next_id == u64::MAX {
        Err(rpc::malformed("RPC request identifier overflow"))
    } else {
        Ok(FrameModel::Request { id: request_id(client.next_id as nat), method, params })
    }
}

/// What came back for a request: its data, or why there is none, and whether
/// the session is over.
pub open spec fn request_outcome(
    id: Seq<char>,
    received: Result<Option<FrameModel>, FrameError>,
    names: ErrorCodeNames,
) -> (Result<Json, RpcError>, bool) {
    match received {
        Err(error) => (Err(rpc::frame_failure(error)), true),
        Ok(None) => (Err(rpc::lost("the RPC session ended before its response")), true),
        Ok(Some(FrameModel::Response { id: answered, ok, data, errors })) => if answered == id && ok
            && data is Some && errors.len() == 0 {
            (Ok(data->0), false)
        } else if answered == id && !ok && remote_failure(errors, names) {
            (
                Err(
                    RpcError {
                        code: ErrorCode::RemoteExecutionFailed,
                        message: REMOTE_EXECUTION_FAILED_MESSAGE,
                    },
                ),
                false,
            )
        } else {
            (Err(unmatched()), true)
        },
        Ok(Some(FrameModel::Error { id: answered, errors })) => if answered == id {
            (
                Err(
                    RpcError {
                        code: if errors.len() > 0 && errors[0].code
                            == names.protocol_incompatible@ {
                            ErrorCode::ProtocolIncompatible
                        } else {
                            ErrorCode::ProtocolMalformed
                        },
                        message: "the worker rejected the RPC session",
                    },
                ),
                true,
            )
        } else {
            (Err(unmatched()), true)
        },
        Ok(Some(_)) => (Err(unmatched()), true),
    }
}

/// A frame that does not answer the request.
pub open spec fn unmatched() -> RpcError {
    rpc::malformed("the RPC response did not match the sole outstanding request")
}

/// The one diagnostic of a worker that could not do what was asked.
pub open spec fn remote_failure(errors: Seq<DiagnosticModel>, names: ErrorCodeNames) -> bool {
    &&& errors.len() == 1
    &&& errors[0].code == names.remote_execution_failed@
    &&& errors[0].message == REMOTE_EXECUTION_FAILED_MESSAGE@
    &&& errors[0].details is None
}

/// Whether a worker says that it could not do what was asked.
pub fn is_remote_execution_failure(errors: &[RpcDiagnostic], names: &ErrorCodeNames) -> (holds:
    bool)
    ensures
        holds == remote_failure(frame::all_diagnostics(errors@), *names),
{
    if errors.len() != 1 {
        return false;
    }
    assert(frame::all_diagnostics(errors@)[0] == errors@[0]@);
    same_text(errors[0].code.as_str(), names.remote_execution_failed.as_str()) && same_text(
        errors[0].message.as_str(),
        REMOTE_EXECUTION_FAILED_MESSAGE,
    ) && errors[0].details.is_none()
}

/// A client like `before`, but that it may be terminated.
pub open spec fn same_session(before: RpcClient, after: RpcClient) -> bool {
    before.hello == after.hello && before.next_id == after.next_id
}

impl RpcClient {
    /// Begins a request: the frame to send. A session whose identifiers are used
    /// up is terminated.
    pub fn begin_request(&mut self, method: &str, params: JsonValue) -> (result: Result<
        Frame,
        RpcError,
    >)
        ensures
            final(self).hello == old(self).hello,
            match result {
                Ok(sent) => {
                    &&& request_frame(*old(self), method@, params@) == Ok::<_, RpcError>(sent@)
                    &&& final(self).next_id == old(self).next_id + 1
                    &&& !final(self).terminated
                },
                Err(error) => {
                    &&& request_frame(*old(self), method@, params@) == Err::<FrameModel, _>(error)
                    &&& final(self).next_id == old(self).next_id
                    &&& final(self).terminated
                },
            },
    {
        if self.terminated {
            return Err(
                RpcError::new(
                    ErrorCode::TransportSessionLost,
                    "the RPC session was already terminated",
                ),
            );
        }
        let id = numbered("c", self.next_id);
        match self.next_id.checked_add(1) {
            Some(next_id) => {
                self.next_id = next_id;
            },
            None => {
                return Err(
                    self.terminate(RpcError::malformed("RPC request identifier overflow")),
                );
            },
        }
        Ok(Frame::Request { id, method: method.to_owned(), params })
    }

    /// Goes on after a request was written, or was not.
    pub fn request_written(&mut self, written: Result<(), FrameError>) -> (result: Result<
        (),
        RpcError,
    >)
        ensures
            same_session(*old(self), *final(self)),
            match written {
                Ok(()) => {
                    &&& result == Ok::<(), RpcError>(())
                    &&& final(self).terminated == old(self).terminated
                },
                Err(error) => {
                    &&& result == Err::<(), _>(rpc::frame_failure(error))
                    &&& final(self).terminated
                },
            },
    {
        match written {
            Ok(()) => Ok(()),
            Err(error) => Err(self.terminate(RpcError::frame(error))),
        }
    }

    /// Ends the request `id` with what was received.
    pub fn complete_request(
        &mut self,
        id: &str,
        received: Result<Option<Frame>, FrameError>,
        names: &ErrorCodeNames,
    ) -> (result: Result<JsonValue, RpcError>)
        ensures
            same_session(*old(self), *final(self)),
            match result {
                Ok(data) => request_outcome(id@, received_model(received), *names) == (
                    Ok::<_, RpcError>(data@),
                    false,
                ) && final(self).terminated == old(self).terminated,
                Err(error) => {
                    let (outcome, over) = request_outcome(id@, received_model(received), *names);
                    &&& outcome == Err::<Json, _>(error)
                    &&& final(self).terminated == (old(self).terminated || over)
                },
            },
    {
        let frame = match received {
            Ok(Some(frame)) => frame,
            Ok(None) => {
                return Err(
                    self.terminate(
                        RpcError::new(
                            ErrorCode::TransportSessionLost,
                            "the RPC session ended before its response",
                        ),
                    ),
                );
            },
            Err(error) => {
                return Err(self.terminate(RpcError::frame(error)));
            },
        };
        match frame {
            Frame::Response { id: answered, ok, data, errors } => {
                if same_text(answered.as_str(), id) {
                    if ok {
                        if errors.len() == 0 {
                            match data {
                                Some(data) => {
                                    return Ok(data);
                                },
                                None => {},
                            }
                        }
                    } else if is_remote_execution_failure(&errors, names) {
                        return Err(
                            RpcError::new(
                                ErrorCode::RemoteExecutionFailed,
                                REMOTE_EXECUTION_FAILED_MESSAGE,
                            ),
                        );
                    }
                }
            },
            Frame::Error { id: answered, errors } => {
                if same_text(answered.as_str(), id) {
                    if errors.len() > 0 {
                        assert(frame::all_diagnostics(errors@)[0] == errors@[0]@);
                    }
                    let incompatible = errors.len() > 0 && same_text(
                        errors[0].code.as_str(),
                        names.protocol_incompatible.as_str(),
                    );
                    let code = if incompatible {
                        ErrorCode::ProtocolIncompatible
                    } else {
                        ErrorCode::ProtocolMalformed
                    };
                    return Err(
                        self.terminate(RpcError::new(code, "the worker rejected the RPC session")),
                    );
                }
            },
            _ => {},
        }
        Err(
            self.terminate(
                RpcError::malformed("the RPC response did not match the sole outstanding request"),
            ),
        )
    }

    /// Ends the session. `reaped` says whether the process at the other end
    /// could be waited for and exited successfully.
    pub fn finish(self, reaped: Option<bool>) -> (result: Result<(), RpcError>)
        ensures
            result == (if self.terminated {
                Err(rpc::lost("the RPC session was already terminated"))
            } else {
                match reaped {
                    None => Err(rpc::lost("the RPC process could not be reaped")),
                    Some(true) => Ok::<(), RpcError>(()),
                    Some(false) => Err(rpc::lost("the RPC process exited unexpectedly")),
                }
            }),
    {
        if self.terminated {
            return Err(
                RpcError::new(
                    ErrorCode::TransportSessionLost,
                    "the RPC session was already terminated",
                ),
            );
        }
        match reaped {
            None => Err(
                RpcError::new(
                    ErrorCode::TransportSessionLost,
                    "the RPC process could not be reaped",
                ),
            ),
            Some(true) => Ok(()),
            Some(false) => Err(
                RpcError::new(
                    ErrorCode::TransportSessionLost,
                    "the RPC process exited unexpectedly",
                ),
            ),
        }
    }
}

// ---------------------------------------------------------------------------
// Methods
// ---------------------------------------------------------------------------

/// A manifest that was read from its text.
#[derive(Debug)]
pub struct ParsedManifest {
    pub identity: ManifestIdentity,
    /// The text that the manifest is written as, where it can be.
    pub canonical_text: Option<String>,
}

/// The text of the manifest in a worker's response.
pub open spec fn manifest_text<F: Fn(&str) -> bool>(secret: F, data: Json) -> Result<
    Seq<char>,
    RpcError,
> {
    if secret::holds_secret(secret, data) {
        Err(rpc::malformed("the worker response contained secret-shaped text"))
    } else {
        match data {
            Json::Object(entries) => match json::field(entries, "toml"@) {
                Some(Json::Text(text)) => Ok(text),
                _ => Err(rpc::malformed("the worker manifest response was malformed")),
            },
            _ => Err(rpc::malformed("the worker manifest response was malformed")),
        }
    }
}

/// What a controller makes of a worker's manifest, given what was read from its
/// text.
pub open spec fn manifest_verdict<F: Fn(&str) -> bool>(
    secret: F,
    hello: ServerHello,
    data: Json,
    parsed: Option<ParsedManifest>,
    expected: ExpectedPeer,
) -> Result<(), RpcError> {
    match manifest_text(secret, data) {
        Err(error) => Err(error),
        Ok(text) => match parsed {
            None => Err(
                RpcError {
                    code: ErrorCode::MachineManifestInvalid,
                    message: "the worker returned an invalid machine manifest",
                },
            ),
            Some(manifest) => if !text::is_text(manifest.canonical_text, text) {
                Err(rpc::malformed("the worker returned a noncanonical machine manifest"))
            } else if !rpc::bound(hello, manifest.identity, expected) {
                Err(rpc::malformed("the RPC hello and worker manifest binding did not match"))
            } else {
                Ok(())
            },
        },
    }
}

/// What a verdict leaves of a session.
pub open spec fn settled(before: RpcClient, after: RpcClient, accepted: bool) -> bool {
    &&& same_session(before, after)
    &&& after.terminated == (before.terminated || !accepted)
}

/// The text of the manifest in a worker's response, which is then to be read.
pub fn read_manifest_text<'a, F: Fn(&str) -> bool>(data: &'a JsonValue, secret: &F) -> (result:
    Result<&'a str, RpcError>)
    requires
        secret::detector(*secret),
    ensures
        match result {
            Ok(text) => manifest_text(*secret, data@) == Ok::<_, RpcError>(text@),
            Err(error) => manifest_text(*secret, data@) == Err::<Seq<char>, _>(error),
        },
{
    match validate_remote_value(data, secret) {
        Ok(()) => {},
        Err(error) => {
            return Err(error);
        },
    }
    proof {
        json::lemma_model(*data);
    }
    match data {
        JsonValue::Object(entries) => match get(entries, "toml") {
            Some(JsonValue::Text(text)) => Ok(text.as_str()),
            _ => Err(RpcError::malformed("the worker manifest response was malformed")),
        },
        _ => Err(RpcError::malformed("the worker manifest response was malformed")),
    }
}

fn judge_manifest<F: Fn(&str) -> bool>(
    hello: &ServerHello,
    data: &JsonValue,
    parsed: &Option<ParsedManifest>,
    expected: &ExpectedPeer,
    secret: &F,
) -> (result: Result<(), RpcError>)
    requires
        secret::detector(*secret),
    ensures
        result == manifest_verdict(*secret, *hello, data@, *parsed, *expected),
{
    let text = match read_manifest_text(data, secret) {
        Ok(text) => text,
        Err(error) => {
            return Err(error);
        },
    };
    let manifest = match parsed {
        Some(manifest) => manifest,
        None => {
            return Err(
                RpcError::new(
                    ErrorCode::MachineManifestInvalid,
                    "the worker returned an invalid machine manifest",
                ),
            );
        },
    };
    let canonical = match &manifest.canonical_text {
        Some(canonical) => same_text(canonical.as_str(), text),
        None => false,
    };
    if !canonical {
        return Err(RpcError::malformed("the worker returned a noncanonical machine manifest"));
    }
    validate_hello_manifest_binding(hello, &manifest.identity, expected)
}

/// What a controller makes of a worker's status, given what was read from it.
pub open spec fn status_verdict<F: Fn(&str) -> bool>(
    secret: F,
    hello: ServerHello,
    data: Json,
    parsed: Option<MachineStatus>,
) -> Result<(), RpcError> {
    if secret::holds_secret(secret, data) {
        Err(rpc::malformed("the worker response contained secret-shaped text"))
    } else {
        match parsed {
            None => Err(rpc::malformed("the worker status response was malformed")),
            Some(status) => if resources::acceptable_status(
                secret,
                status,
                hello.machine_id,
                resources::rfc3339_time(status.time@),
            ) {
                Ok(())
            } else {
                Err(rpc::malformed("the worker status response was invalid"))
            },
        }
    }
}

fn judge_status<F: Fn(&str) -> bool>(
    hello: &ServerHello,
    data: &JsonValue,
    parsed: &Option<MachineStatus>,
    secret: &F,
) -> (result: Result<(), RpcError>)
    requires
        secret::detector(*secret),
    ensures
        result == status_verdict(*secret, *hello, data@, *parsed),
{
    match validate_remote_value(data, secret) {
        Ok(()) => {},
        Err(error) => {
            return Err(error);
        },
    }
    match parsed {
        Some(status) => match status.validate_for_client(hello.machine_id, secret) {
            Ok(()) => Ok(()),
            Err(_) => Err(RpcError::malformed("the worker status response was invalid")),
        },
        None => Err(RpcError::malformed("the worker status response was malformed")),
    }
}

fn empty_object() -> (value: JsonValue)
    ensures
        value@ == Json::Object(seq![]),
{
    let value = JsonValue::Object(Vec::new());
    proof {
        json::lemma_model(value);
        assert(value@->Object_0 =~= seq![]);
    }
    value
}

/// The parameters of a check: the controller's public key.
pub open spec fn doctor_params(key: Seq<char>) -> Json {
    Json::Object(seq![("authorized_public_key"@, Json::Text(key))])
}

/// The parameters of a command: its arguments.
pub open spec fn exec_params(argv: Seq<String>) -> Json {
    Json::Object(
        seq![("argv"@, Json::Array(argv.map_values(|argument: String| Json::Text(argument@))))],
    )
}

fn one_field(name: &str, item: JsonValue) -> (value: JsonValue)
    ensures
        value@ == Json::Object(seq![(name@, item@)]),
{
    let mut entries: Vec<(String, JsonValue)> = Vec::new();
    entries.push((name.to_owned(), item));
    let value = JsonValue::Object(entries);
    proof {
        json::lemma_model(value);
        assert(value@->Object_0 =~= seq![(name@, item@)]);
    }
    value
}

fn argument_array(argv: &[String]) -> (value: JsonValue)
    ensures
        value@ == Json::Array(argv@.map_values(|argument: String| Json::Text(argument@))),
{
    let mut items: Vec<JsonValue> = Vec::new();
    for i in 0..argv.len()
        invariant
            items@.len() == i,
            forall|k: int| 0 <= k < i ==> (#[trigger] items@[k])@ == Json::Text(argv@[k]@),
    {
        items.push(JsonValue::Text(argv[i].clone()));
    }
    let value = JsonValue::Array(items);
    proof {
        json::lemma_model(value);
        assert(value@->Array_0 =~= argv@.map_values(|argument: String| Json::Text(argument@)));
    }
    value
}

/// What a request of a method with parameters leaves: the frame to send, or why
/// nothing is sent.
pub open spec fn begun(
    before: RpcClient,
    after: RpcClient,
    method: Seq<char>,
    params: Json,
    result: Result<Frame, RpcError>,
) -> bool {
    &&& before.hello == after.hello
    &&& match result {
        Ok(sent) => {
            &&& request_frame(before, method, params) == Ok::<_, RpcError>(sent@)
            &&& after.next_id == before.next_id + 1
            &&& !after.terminated
        },
        Err(error) => {
            &&& request_frame(before, method, params) == Err::<FrameModel, _>(error)
            &&& after.next_id == before.next_id
            &&& after.terminated
        },
    }
}

impl RpcClient {
    /// Asks for the worker's manifest.
    pub fn request_manifest(&mut self) -> (result: Result<Frame, RpcError>)
        ensures
            begun(
                *old(self),
                *final(self),
                "machine.manifest"@,
                Json::Object(seq![]),
                result,
            ),
    {
        self.begin_request("machine.manifest", empty_object())
    }

    /// Accepts the manifest in a response; `parsed` is what was read from its
    /// text. A session whose worker is not the expected one is terminated.
    pub fn machine_manifest<F: Fn(&str) -> bool>(
        &mut self,
        data: &JsonValue,
        parsed: &Option<ParsedManifest>,
        expected: &ExpectedPeer,
        secret: &F,
    ) -> (result: Result<(), RpcError>)
        requires
            secret::detector(*secret),
        ensures
            result == manifest_verdict(*secret, old(self).hello, data@, *parsed, *expected),
            settled(*old(self), *final(self), result is Ok),
    {
        match judge_manifest(&self.hello, data, parsed, expected, secret) {
            Ok(()) => Ok(()),
            Err(error) => Err(self.terminate(error)),
        }
    }

    /// Asks for the worker's status.
    pub fn request_status(&mut self) -> (result: Result<Frame, RpcError>)
        ensures
            begun(*old(self), *final(self), "machine.status"@, Json::Object(seq![]), result),
    {
        self.begin_request("machine.status", empty_object())
    }

    /// Accepts the status in a response; `parsed` is what was read from it.
    pub fn machine_status<F: Fn(&str) -> bool>(
        &mut self,
        data: &JsonValue,
        parsed: &Option<MachineStatus>,
        secret: &F,
    ) -> (result: Result<(), RpcError>)
        requires
            secret::detector(*secret),
        ensures
            result == status_verdict(*secret, old(self).hello, data@, *parsed),
            settled(*old(self), *final(self), result is Ok),
    {
        match judge_status(&self.hello, data, parsed, secret) {
            Ok(()) => Ok(()),
            Err(error) => Err(self.terminate(error)),
        }
    }

    /// Asks the worker to check itself. A key that is not valid is refused
    /// before anything is sent, and leaves the session as it is.
    pub fn request_doctor(&mut self, authorized_public_key: &str) -> (result: Result<
        Frame,
        RpcError,
    >)
        ensures
            match rpc_payload::canonical_key(authorized_public_key@) {
                Some(key) => begun(
                    *old(self),
                    *final(self),
                    "machine.doctor"@,
                    doctor_params(key),
                    result,
                ),
                None => result == Err::<Frame, _>(rpc_payload::public_key_refusal()) && *final(self)
                    == *old(self),
            },
    {
        match canonical_authorized_public_key(authorized_public_key) {
            Ok(key) => self.begin_request(
                "machine.doctor",
                one_field("authorized_public_key", JsonValue::Text(key)),
            ),
            Err(error) => Err(error),
        }
    }

    /// Accepts the report in a response; `parsed` is what was read from it.
    pub fn machine_doctor<F: Fn(&str) -> bool, P: Fn(&str) -> bool>(
        &mut self,
        data: &JsonValue,
        parsed: Option<WorkerDoctorReport>,
        secret: &F,
        probe_id: &P,
    ) -> (result: Result<WorkerDoctorReport, RpcError>)
        requires
            secret::detector(*secret),
            secret::detector(*probe_id),
        ensures
            settled(*old(self), *final(self), result is Ok),
            result is Ok <==> !secret::holds_secret(*secret, data@) && (parsed matches Some(report)
                && rpc_payload::acceptable_report(*secret, *probe_id, report)),
            result matches Ok(report) ==> parsed == Some(report),
            result matches Err(error) ==> error.code == ErrorCode::ProtocolMalformed,
    {
        match WorkerDoctorReport::from_remote_value(data, parsed, secret, probe_id) {
            Ok(report) => Ok(report),
            Err(error) => Err(self.terminate(error)),
        }
    }

    /// Asks the worker to run a command. A command that is not acceptable is
    /// refused before anything is sent, and leaves the session as it is.
    pub fn request_exec<F: Fn(&str) -> bool>(&mut self, argv: &[String], secret: &F) -> (result:
        Result<Frame, RpcError>)
        requires
            secret::detector(*secret),
        ensures
            if rpc_payload::acceptable_argv(*secret, argv@) {
                begun(*old(self), *final(self), "exec.run"@, exec_params(argv@), result)
            } else {
                result == Err::<Frame, _>(rpc_payload::argv_refusal()) && *final(self) == *old(self)
            },
    {
        match validate_exec_argv(argv, secret) {
            Ok(()) => self.begin_request("exec.run", one_field("argv", argument_array(argv))),
            Err(error) => Err(error),
        }
    }

    /// Accepts what came of a command; `parsed` is what was read from the
    /// response.
    pub fn exec<F: Fn(&str) -> bool>(&mut self, parsed: Option<ExecResult>, secret: &F) -> (result:
        Result<ExecResult, RpcError>)
        requires
            secret::detector(*secret),
        ensures
            settled(*old(self), *final(self), result is Ok),
            match parsed {
                None => result == Err::<ExecResult, _>(
                    rpc::malformed("the worker exec response was malformed"),
                ),
                Some(received) => rpc_payload::sanitized(*secret, received, result),
            },
    {
        match parsed {
            Some(received) => match received.sanitize_for_client(secret) {
                Ok(clean) => Ok(clean),
                Err(error) => Err(self.terminate(error)),
            },
            None => Err(
                self.terminate(RpcError::malformed("the worker exec response was malformed")),
            ),
        }
    }
}

} // verus!
