use std::io::Read;

use styrn::error::{ErrorKind, PlatformError};
use styrn::frame::{
    decode, read_frame, read_frame_text, valid_diagnostics, validate_controller_id, write_frame,
    write_frame_line, ClientHello, Frame, FrameError, FrameErrorKind, RpcDiagnostic, ServerHello, MAX_FRAME_BYTES,
};
use styrn::json::{get, has_distinct_fields, JsonValue};
use styrn::machine_id::{is_machine_id, is_version_seven, machine_id_text, parse_machine_id};
use styrn::resources::{
    capture_machine_status, choose_mount, substrate_status, valid_substrate_status, CpuStatus,
    DiskStatus, HerdrSettings, JobStatus, MachineStatus, Measurements, MemoryStatus, Mount,
    SubstrateStatus,
};
use styrn::rpc::{
    highest_protocol_intersection, incompatible_server_hello_diagnostic, negotiate_server_hello,
    validate_hello_manifest_binding, ErrorCode, ErrorCodeNames, ExpectedPeer, ManifestIdentity,
    RpcError, MAX_EXEC_ARGUMENTS, MAX_EXEC_ARGUMENT_BYTES, MAX_EXEC_CAPTURE_BYTES, REDACTED_OUTPUT,
};
use styrn::rpc_client::{
    is_remote_execution_failure, read_manifest_text, ConnectStep, ParsedManifest, RpcClient,
};
use styrn::rpc_payload::{
    canonical_authorized_public_key, sanitize_remote_capture, validate_exec_argv,
    validate_remote_value, ExecResult, PendingSeverity, WorkerDoctorFinding,
    WorkerDoctorFindingState, WorkerDoctorReport, WorkerDoctorSeverity,
};
use styrn::rpc_server::{
    answer, answered, doctor_report, finish_exec, parse_empty, poll_exec, protocol_failure,
    read_request, sanitize_capture, server_hello, Capture, CaptureRead, CaptureStep, ExecStep,
    HandlerError, ProtocolFault, ServerSession, WaitEvent, WorkerRequest,
};
use styrn::secret::remote_value_contains_secret;

const MACHINE: &str = "01890a5d-ac96-774b-bcce-b302099a8057";
const KEY: &str =
    "ssh-ed25519 AAAAC3NzaC1lZDI1NTE5AAAAIAABAgMEBQYHCAkKCwwNDg8QERITFBUWFxgZGhscHR4f";

fn names() -> ErrorCodeNames {
    ErrorCodeNames {
        protocol_incompatible: "PROTOCOL_INCOMPATIBLE".to_owned(),
        protocol_malformed: "PROTOCOL_MALFORMED".to_owned(),
        remote_execution_failed: "REMOTE_EXECUTION_FAILED".to_owned(),
    }
}

fn is_secret(text: &str) -> bool {
    text.contains("api_key=")
}

fn text(value: &str) -> JsonValue {
    JsonValue::Text(value.to_owned())
}

fn object(fields: Vec<(&str, JsonValue)>) -> JsonValue {
    JsonValue::Object(
        fields
            .into_iter()
            .map(|(name, value)| (name.to_owned(), value))
            .collect(),
    )
}

fn document(value: &JsonValue) -> serde_json::Value {
    match value {
        JsonValue::Null => serde_json::Value::Null,
        JsonValue::Bool(value) => serde_json::Value::from(*value),
        JsonValue::Unsigned(value) => serde_json::Value::from(*value),
        JsonValue::Negative(value) => serde_json::Value::from(*value),
        JsonValue::Float(value) => serde_json::Value::from(value.parse::<f64>().unwrap()),
        JsonValue::Text(value) => serde_json::Value::from(value.clone()),
        JsonValue::Array(items) => serde_json::Value::from(items.iter().map(document).collect::<Vec<_>>()),
        JsonValue::Object(fields) => {
            let mut map = serde_json::Map::new();
            for (name, value) in fields {
                map.insert(name.clone(), document(value));
            }
            serde_json::Value::Object(map)
        }
    }
}

fn library_value(value: &serde_json::Value) -> JsonValue {
    match value {
        serde_json::Value::Null => JsonValue::Null,
        serde_json::Value::Bool(value) => JsonValue::Bool(*value),
        serde_json::Value::Number(number) => match (number.as_u64(), number.as_i64()) {
            (Some(value), _) => JsonValue::Unsigned(value),
            (None, Some(value)) => JsonValue::Negative(value),
            (None, None) => JsonValue::Float(number.to_string()),
        },
        serde_json::Value::String(value) => JsonValue::Text(value.clone()),
        serde_json::Value::Array(items) => JsonValue::Array(items.iter().map(library_value).collect()),
        serde_json::Value::Object(fields) => JsonValue::Object(
            fields
                .iter()
                .map(|(name, value)| (name.clone(), library_value(value)))
                .collect(),
        ),
    }
}

fn written(frame: &Frame) -> Vec<u8> {
    write_frame_line(serde_json::to_vec(&document(&frame.to_json())).unwrap()).unwrap()
}

fn read_line(reader: &mut impl Read) -> Result<Option<Vec<u8>>, FrameError> {
    let mut line = Vec::new();
    let mut byte = [0];
    loop {
        match reader.read(&mut byte) {
            Err(_) => return Err(FrameError::io()),
            Ok(0) if line.is_empty() => return Ok(None),
            Ok(0) => return Ok(Some(line)),
            Ok(_) => {
                line.push(byte[0]);
                if byte[0] == b'\n' {
                    return Ok(Some(line));
                }
            }
        }
    }
}

fn serve(mut reader: impl Read, output: &mut Vec<u8>) -> Result<(), RpcError> {
    let hello = server_hello(parse_machine_id(MACHINE).unwrap(), "worker-one", 1, "0.1.0");
    output.extend(written(&hello));
    let received = match read_line(&mut reader) {
        Err(error) => Err(error),
        Ok(None) => Ok(None),
        Ok(Some(_)) => panic!("the reader gives no line"),
    };
    match ServerSession::select(received, &names()) {
        Ok(_) => Ok(()),
        Err(ending) => {
            if let Some(reply) = ending.reply {
                output.extend(written(&reply));
            }
            ending.result
        }
    }
}

struct FailingReader;

impl Read for FailingReader {
    fn read(&mut self, _buffer: &mut [u8]) -> std::io::Result<usize> {
        Err(std::io::Error::other("injected transport read failure"))
    }
}

#[test]
fn rpc_server_frame_io_error_is_transport_session_lost() {
    let mut output = Vec::new();

    let error = serve(FailingReader, &mut output).unwrap_err();

    assert_eq!(error.code(), ErrorCode::TransportSessionLost);
    assert_eq!(error.exit_code(), Some(3));
    assert_eq!(output.iter().filter(|byte| **byte == b'\n').count(), 1);
}

#[test]
fn rpc_capture_retries_interrupted_reads_without_truncating_output() {
    let mut capture = Capture::new();
    let mut failures = 0;
    let mut done = false;
    for read in [
        CaptureRead::Bytes(b"before-".to_vec()),
        CaptureRead::Interrupted,
        CaptureRead::Bytes(b"after".to_vec()),
        CaptureRead::End,
    ] {
        match capture.accept(read) {
            CaptureStep::Continue => {}
            CaptureStep::Done => done = true,
            CaptureStep::Overflow | CaptureStep::Fail => failures += 1,
        }
    }

    assert!(done);
    assert_eq!(capture.bytes, b"before-after");
    assert!(!capture.overflow);
    assert_eq!(failures, 0);
}

#[test]
fn rpc_capture_propagates_non_interrupted_read_failure() {
    let mut capture = Capture::new();
    assert!(matches!(
        capture.accept(CaptureRead::Bytes(b"partial".to_vec())),
        CaptureStep::Continue
    ));
    assert!(matches!(
        capture.accept(CaptureRead::Failed),
        CaptureStep::Fail
    ));
}

#[test]
fn a_capture_over_its_limit_is_told_once_and_read_on() {
    let mut capture = Capture::new();
    assert!(matches!(
        capture.accept(CaptureRead::Bytes(vec![b'x'; MAX_EXEC_CAPTURE_BYTES])),
        CaptureStep::Continue
    ));
    assert!(matches!(
        capture.accept(CaptureRead::Bytes(vec![b'y'])),
        CaptureStep::Overflow
    ));
    assert!(capture.overflow);
    assert_eq!(capture.bytes.len(), MAX_EXEC_CAPTURE_BYTES);
    assert!(matches!(
        finish_exec(Some(0), Some(capture), Some(Capture::new()), 5, &is_secret),
        Err(HandlerError::Remote)
    ));
}

fn hello() -> ServerHello {
    ServerHello {
        protocol_min: 1,
        protocol_max: 1,
        styrn_version: "0.1.0".to_owned(),
        machine_id: parse_machine_id(MACHINE).unwrap(),
        name: "worker-one".to_owned(),
        manifest_schema_version: 1,
    }
}

#[test]
fn machine_ids_are_written_as_they_are_read() {
    let id = parse_machine_id(MACHINE).unwrap();
    assert_eq!(id, 0x0189_0a5d_ac96_774b_bcce_b302_099a_8057);
    assert_eq!(machine_id_text(id), MACHINE);
    assert!(is_machine_id(id));
    assert!(is_version_seven(id));
    for other in [
        "00000000-0000-0000-0000-000000000000",
        "550e8400-e29b-41d4-a716-446655440000",
        "01890A5D-AC96-774B-BCCE-B302099A8057",
        "01890a5dac96774bbcceb302099a8057",
        "nonsense",
    ] {
        assert_eq!(parse_machine_id(other), None, "{other}");
    }
}

#[test]
fn frames_are_decoded_as_they_were_sent() {
    let frames = [
        Frame::ServerHello(hello()),
        Frame::ClientHello(ClientHello {
            protocol: 1,
            styrn_version: "0.1.0".to_owned(),
        }),
        Frame::Request {
            id: "c1".to_owned(),
            method: "machine.status".to_owned(),
            params: object(vec![]),
        },
        Frame::Response {
            id: "c1".to_owned(),
            ok: true,
            data: Some(object(vec![("a", JsonValue::Unsigned(7))])),
            errors: vec![],
        },
        Frame::Response {
            id: "c2".to_owned(),
            ok: false,
            data: None,
            errors: vec![RpcDiagnostic::new("REMOTE_EXECUTION_FAILED", "no")],
        },
        Frame::Error {
            id: "c3".to_owned(),
            errors: vec![RpcDiagnostic::new("PROTOCOL_MALFORMED", "no")],
        },
    ];
    for frame in frames {
        let decoded = decode(&frame.to_json()).ok().unwrap();
        assert_eq!(document(&decoded.to_json()), document(&frame.to_json()));
    }
}

#[test]
fn a_server_hello_is_written_field_by_field() {
    assert_eq!(
        document(&Frame::ServerHello(hello()).to_json()),
        serde_json::from_str::<serde_json::Value>(
            r#"{"id":"hello","type":"hello","protocol_min":1,"protocol_max":1,
                "styrn_version":"0.1.0","machine_id":"01890a5d-ac96-774b-bcce-b302099a8057",
                "name":"worker-one","manifest_schema_version":1}"#
        )
        .unwrap()
    );
}

#[test]
fn malformed_frames_are_told_apart() {
    let kind = |value: &JsonValue| decode(value).err().unwrap().kind();
    assert_eq!(kind(&JsonValue::Null), FrameErrorKind::InvalidJson);
    assert_eq!(
        kind(&object(vec![("id", text("c1")), ("type", text("other"))])),
        FrameErrorKind::UnsupportedType
    );
    assert_eq!(
        kind(&object(vec![
            ("id", text("bad id")),
            ("type", text("request")),
            ("method", text("machine.status")),
            ("params", object(vec![])),
        ])),
        FrameErrorKind::InvalidId
    );
    assert_eq!(
        kind(&object(vec![
            ("id", text("c1")),
            ("id", text("c1")),
            ("type", text("request")),
            ("method", text("machine.status")),
            ("params", object(vec![])),
        ])),
        FrameErrorKind::InvalidJson
    );
    assert!(!has_distinct_fields(&object(vec![
        ("a", JsonValue::Null),
        ("a", JsonValue::Null)
    ])));
    assert!(has_distinct_fields(&object(vec![
        ("a", object(vec![("a", JsonValue::Null)])),
        ("b", JsonValue::Null)
    ])));
}

#[test]
fn written_frames_are_read_until_the_stream_ends() {
    let sent = Frame::Request {
        id: "c7".to_owned(),
        method: "system.status".to_owned(),
        params: object(vec![("path", JsonValue::Text("a\nb".to_owned()))]),
    };
    let write = |value: &JsonValue| serde_json::to_vec(&document(value)).ok();
    let parse = |text: &str| serde_json::from_str(text).ok().map(|value| library_value(&value));
    let line = write_frame(&sent, write).ok().unwrap();
    assert_eq!(line.iter().filter(|byte| **byte == b'\n').count(), 1);
    let read = read_frame(&line, parse).ok().unwrap().unwrap();
    let Frame::Request { id, method, params } = read else {
        panic!("it was a request");
    };
    assert_eq!((id.as_str(), method.as_str()), ("c7", "system.status"));
    let JsonValue::Object(fields) = &params else {
        panic!("they were an object");
    };
    assert!(matches!(get(fields, "path"), Some(JsonValue::Text(text)) if text == "a\nb"));
    assert!(read_frame(b"", |_| panic!("nothing was read")).ok().unwrap().is_none());
    assert_eq!(
        read_frame(b"{}", |_| panic!("the line is cut short")).err().unwrap().kind(),
        FrameErrorKind::Truncated
    );
    assert_eq!(
        read_frame(b"{\n", parse).err().unwrap().kind(),
        FrameErrorKind::InvalidJson
    );
    assert_eq!(
        write_frame(&sent, |_| None).err().unwrap().kind(),
        FrameErrorKind::InvalidJson
    );
    assert_eq!(
        write_frame(&sent, |_| Some(vec![b'x'; MAX_FRAME_BYTES + 1])).err().unwrap().kind(),
        FrameErrorKind::Oversize
    );
}

#[test]
fn lines_are_bounded_and_terminated() {
    assert_eq!(read_frame_text(b"").ok().unwrap(), None);
    assert_eq!(
        read_frame_text(b"{}\n").ok().unwrap(),
        Some("{}".to_owned())
    );
    assert_eq!(
        read_frame_text(b"{}").err().unwrap().kind(),
        FrameErrorKind::Truncated
    );
    assert_eq!(
        read_frame_text(&[0xff, b'\n']).err().unwrap().kind(),
        FrameErrorKind::InvalidUtf8
    );
    let long = vec![b'x'; MAX_FRAME_BYTES + 2];
    assert_eq!(
        read_frame_text(&long).err().unwrap().kind(),
        FrameErrorKind::Oversize
    );
    assert_eq!(
        write_frame_line(vec![b'x'; MAX_FRAME_BYTES + 1]).err().unwrap().kind(),
        FrameErrorKind::Oversize
    );
    let line = write_frame_line(vec![b'x'; MAX_FRAME_BYTES]).ok().unwrap();
    assert_eq!(line.len(), MAX_FRAME_BYTES + 1);
    assert_eq!(line.last(), Some(&b'\n'));
    assert_eq!(
        read_frame_text(&line).ok().unwrap().unwrap().len(),
        MAX_FRAME_BYTES
    );
    assert!(validate_controller_id("c1").is_ok());
    for id in ["", "c", "c0", "c01", "1", "cx", "c-1"] {
        assert!(validate_controller_id(id).is_err(), "{id}");
    }
    assert!(valid_diagnostics(&[RpcDiagnostic::new("A", "b")]));
    assert!(!valid_diagnostics(&[RpcDiagnostic::new("", "b")]));
}

#[test]
fn the_highest_common_protocol_is_spoken() {
    assert_eq!(highest_protocol_intersection(1..=3, 2..=9), Some(3));
    assert_eq!(highest_protocol_intersection(1..=1, 2..=9), None);
    assert_eq!(highest_protocol_intersection(4..=6, 1..=5), Some(5));
    assert_eq!(negotiate_server_hello(&hello()).ok().unwrap(), 1);
    let mut newer = hello();
    newer.protocol_min = 2;
    newer.protocol_max = 3;
    assert_eq!(
        negotiate_server_hello(&newer).err().unwrap().code(),
        ErrorCode::ProtocolIncompatible
    );
    assert_eq!(
        incompatible_server_hello_diagnostic(&newer, &names()).code,
        "PROTOCOL_INCOMPATIBLE"
    );
}

fn connected() -> RpcClient {
    match RpcClient::connect(
        Ok(Some(Frame::ServerHello(hello()))),
        ErrorCode::TransportSessionLost,
        "0.1.0",
        &names(),
    ) {
        ConnectStep::Greet { client, reply } => {
            assert!(matches!(reply, Frame::ClientHello(ClientHello { protocol: 1, .. })));
            client
        }
        ConnectStep::Refuse { .. } => panic!("the worker greeted"),
    }
}

#[test]
fn a_session_is_opened_used_and_closed() {
    let mut client = connected();
    assert_eq!(client.server_hello().name, "worker-one");
    let greeting = Frame::ClientHello(ClientHello {
        protocol: 1,
        styrn_version: "0.1.0".to_owned(),
    });
    let mut session = ServerSession::select(Ok(Some(greeting)), &names()).ok().unwrap();

    for _ in 0..3 {
        let request = client.request_status().ok().unwrap();
        client.request_written(Ok(())).ok().unwrap();
        let call = session.receive(Ok(Some(request)), &names()).ok().unwrap();
        assert!(matches!(
            read_request(&call.method, &call.params, &is_secret),
            Ok(WorkerRequest::Status)
        ));
        let reply = answer(&call.id, Ok(text("fine")), &names()).ok().unwrap();
        let data = client.complete_request(&call.id, Ok(Some(reply)), &names()).ok().unwrap();
        assert!(matches!(data, JsonValue::Text(value) if value == "fine"));
    }
    assert!(client.finish(Some(true)).is_ok());
}

#[test]
fn requests_carry_what_the_worker_reads() {
    let mut client = connected();
    let argv = vec!["git".to_owned(), "status".to_owned()];
    let Frame::Request { method, params, .. } =
        client.request_exec(&argv, &is_secret).ok().unwrap()
    else {
        panic!("a request was begun");
    };
    assert!(matches!(
        read_request(&method, &params, &is_secret),
        Ok(WorkerRequest::Exec { argv: read }) if read == argv
    ));
    let Frame::Request { method, params, .. } = client.request_doctor(KEY).ok().unwrap() else {
        panic!("a request was begun");
    };
    assert!(matches!(
        read_request(&method, &params, &is_secret),
        Ok(WorkerRequest::Doctor { authorized_public_key }) if authorized_public_key == KEY
    ));
    let Frame::Request { method, params, .. } = client.request_manifest().ok().unwrap() else {
        panic!("a request was begun");
    };
    assert!(matches!(
        read_request(&method, &params, &is_secret),
        Ok(WorkerRequest::Manifest)
    ));
    assert!(parse_empty(&object(vec![("x", JsonValue::Null)])).is_err());
    assert!(matches!(
        read_request("machine.unknown", &object(vec![]), &is_secret),
        Err(HandlerError::Malformed)
    ));
}

#[test]
fn a_broken_session_answers_no_more_requests() {
    let mut client = connected();
    let Frame::Request { id, .. } = client.request_status().ok().unwrap() else {
        panic!("a request was begun");
    };
    let error = client
        .complete_request(&id, Err(FrameError::io()), &names())
        .err()
        .unwrap();
    assert_eq!(error.code(), ErrorCode::TransportSessionLost);
    assert!(client.request_status().is_err());
}

#[test]
fn a_remote_failure_leaves_the_session_open() {
    let mut client = connected();
    let Frame::Request { id, .. } = client.request_status().ok().unwrap() else {
        panic!("a request was begun");
    };
    let reply = answer(&id, Err(HandlerError::Remote), &names()).ok().unwrap();
    if let Frame::Response { errors, .. } = &reply {
        assert!(is_remote_execution_failure(errors, &names()));
    }
    let error = client.complete_request(&id, Ok(Some(reply)), &names()).err().unwrap();
    assert_eq!(error.code(), ErrorCode::RemoteExecutionFailed);
    assert!(client.request_status().is_ok());
}

#[test]
fn strangers_and_the_silent_are_refused() {
    let refuse = |first| match RpcClient::connect(
        first,
        ErrorCode::TransportSessionLost,
        "0.1.0",
        &names(),
    ) {
        ConnectStep::Refuse { reply, error } => (reply.is_some(), error.code()),
        ConnectStep::Greet { .. } => panic!("nobody greeted"),
    };
    assert_eq!(refuse(Ok(None)).1, ErrorCode::TransportSessionLost);
    assert_eq!(refuse(Err(FrameError::io())).1, ErrorCode::TransportSessionLost);
    let mut newer = hello();
    newer.protocol_min = 2;
    newer.protocol_max = 2;
    assert_eq!(
        refuse(Ok(Some(Frame::ServerHello(newer)))),
        (true, ErrorCode::ProtocolIncompatible)
    );

    let wrong = Frame::ClientHello(ClientHello {
        protocol: 9,
        styrn_version: "0.1.0".to_owned(),
    });
    let ending = ServerSession::select(Ok(Some(wrong)), &names()).err().unwrap();
    assert!(matches!(ending.reply, Some(Frame::Error { .. })));
    assert_eq!(
        ending.result.unwrap_err().code(),
        ErrorCode::ProtocolIncompatible
    );
    let ending = protocol_failure("c1", ProtocolFault::Malformed, &names());
    assert_eq!(
        ending.result.unwrap_err().code(),
        ErrorCode::ProtocolMalformed
    );
}

#[test]
fn a_request_that_comes_twice_is_malformed() {
    let greeting = Frame::ClientHello(ClientHello {
        protocol: 1,
        styrn_version: "0.1.0".to_owned(),
    });
    let mut session = ServerSession::select(Ok(Some(greeting)), &names()).ok().unwrap();
    let request = || connected().request_status().ok().unwrap();
    assert!(session.receive(Ok(Some(request())), &names()).is_ok());
    let ending = session.receive(Ok(Some(request())), &names()).err().unwrap();
    assert_eq!(
        ending.result.unwrap_err().code(),
        ErrorCode::ProtocolMalformed
    );
    let end = session.receive(Ok(None), &names()).err().unwrap();
    assert!(end.result.is_ok());
    assert!(answered("c1", Ok(()), &names()).ok().unwrap().is_none());
    assert!(answered("c1", Err(FrameError::io()), &names()).is_err());
}

#[test]
fn output_that_looks_like_a_secret_is_not_shown() {
    let (shown, lossy, redacted) = sanitize_capture(b"api_key=abc", &is_secret);
    assert_eq!((shown.as_str(), lossy, redacted), (REDACTED_OUTPUT, false, true));
    let (shown, lossy, redacted) = sanitize_capture(&[b'a', 0xff, b'b'], &is_secret);
    assert_eq!((shown.as_str(), lossy, redacted), ("a\u{fffd}b", true, false));

    let mut text = "api_key=abc".to_owned();
    let mut redacted = false;
    sanitize_remote_capture(&mut text, &mut redacted, &is_secret);
    assert_eq!((text.as_str(), redacted), (REDACTED_OUTPUT, true));
    assert!(remote_value_contains_secret(
        &JsonValue::Array(vec![object(vec![("x", self::text("api_key=1"))])]),
        &is_secret
    ));
    assert!(validate_remote_value(&self::text("plain"), &is_secret).is_ok());
    assert!(validate_remote_value(&self::text("api_key=1"), &is_secret).is_err());
}

#[test]
fn commands_are_bounded() {
    let argv = |count: usize| vec!["x".to_owned(); count];
    assert!(validate_exec_argv(&argv(1), &is_secret).is_ok());
    assert!(validate_exec_argv(&argv(MAX_EXEC_ARGUMENTS), &is_secret).is_ok());
    assert!(validate_exec_argv(&argv(MAX_EXEC_ARGUMENTS + 1), &is_secret).is_err());
    assert!(validate_exec_argv(&[], &is_secret).is_err());
    assert!(validate_exec_argv(&["api_key=1".to_owned()], &is_secret).is_err());
    assert!(validate_exec_argv(&[String::new()], &is_secret).is_err());
    assert!(validate_exec_argv(&["x".repeat(MAX_EXEC_ARGUMENT_BYTES)], &is_secret).is_ok());
    assert!(validate_exec_argv(&["x".repeat(MAX_EXEC_ARGUMENT_BYTES + 1)], &is_secret).is_err());
    assert!(validate_exec_argv(&vec!["x".repeat(MAX_EXEC_ARGUMENT_BYTES); 9], &is_secret).is_err());
}

#[test]
fn a_finished_command_is_reported() {
    let capture = |text: &str| {
        let mut capture = Capture::new();
        capture.accept(CaptureRead::Bytes(text.as_bytes().to_vec()));
        capture
    };
    let result = finish_exec(Some(3), Some(capture("out")), Some(capture("err")), 12, &is_secret)
        .ok()
        .unwrap();
    assert_eq!(
        (result.exit_code, result.stdout.as_str(), result.stderr.as_str(), result.duration_ms),
        (3, "out", "err", 12)
    );
    let shown = result.sanitize_for_client(&is_secret).ok().unwrap();
    assert_eq!(
        (shown.exit_code, shown.stdout.as_str(), shown.stderr.as_str(), shown.duration_ms),
        (3, "out", "err", 12)
    );
    let redacted = finish_exec(
        Some(0),
        Some(capture("api_key=1")),
        Some(capture("")),
        1,
        &is_secret,
    )
    .ok()
    .unwrap()
    .sanitize_for_client(&is_secret)
    .ok()
    .unwrap();
    assert_eq!(
        (redacted.stdout.as_str(), redacted.stdout_redacted),
        (REDACTED_OUTPUT, true)
    );
    assert!(finish_exec(Some(0), None, Some(capture("")), 1, &is_secret).is_err());
    assert!(matches!(
        poll_exec(true, WaitEvent::Running),
        ExecStep::Kill
    ));
    assert!(matches!(
        poll_exec(false, WaitEvent::Running),
        ExecStep::Sleep
    ));
    assert!(matches!(
        poll_exec(false, WaitEvent::Exited { code: Some(1) }),
        ExecStep::Collect { code: Some(1) }
    ));
}

fn exec_result(stdout: &str, redacted: bool) -> ExecResult {
    ExecResult {
        exit_code: 0,
        stdout: stdout.to_owned(),
        stderr: String::new(),
        duration_ms: 1,
        stdout_lossy: false,
        stderr_lossy: false,
        stdout_redacted: redacted,
        stderr_redacted: false,
    }
}

#[test]
fn the_client_redacts_what_the_worker_did_not() {
    let mut client = connected();
    let shown = client
        .exec(Some(exec_result("api_key=1", false)), &is_secret)
        .ok()
        .unwrap();
    assert_eq!(shown.stdout, REDACTED_OUTPUT);
    assert!(shown.stdout_redacted);
    assert!(client.exec(None, &is_secret).is_err());
}

#[test]
fn public_keys_are_sent_without_their_comment() {
    assert_eq!(
        canonical_authorized_public_key(&format!("{KEY} someone@host")).ok().unwrap(),
        KEY
    );
    assert!(canonical_authorized_public_key("ssh-ed25519 not-base64").is_err());
}

fn expected() -> ExpectedPeer {
    ExpectedPeer::new(parse_machine_id(MACHINE).unwrap(), "worker-one", "alex")
        .ok()
        .unwrap()
}

fn manifest(name: &str) -> ManifestIdentity {
    ManifestIdentity {
        machine_id: parse_machine_id(MACHINE).unwrap(),
        name: name.to_owned(),
        schema_version: 1,
        transport_user: Some("alex".to_owned()),
        identity_user: Some("alex".to_owned()),
    }
}

#[test]
fn a_manifest_must_be_the_expected_machines() {
    assert!(validate_hello_manifest_binding(&hello(), &manifest("worker-one"), &expected()).is_ok());
    assert!(validate_hello_manifest_binding(&hello(), &manifest("other"), &expected()).is_err());
    assert!(ExpectedPeer::new(0, "worker-one", "alex").is_err());
    assert_eq!(expected().machine_id(), parse_machine_id(MACHINE).unwrap());
}

#[test]
fn a_manifest_is_read_as_its_canonical_text() {
    let mut client = connected();
    let data = object(vec![("toml", text("name = \"worker-one\"\n"))]);
    assert_eq!(
        read_manifest_text(&data, &is_secret).ok(),
        Some("name = \"worker-one\"\n")
    );
    assert!(read_manifest_text(&object(vec![("toml", JsonValue::Null)]), &is_secret).is_err());
    let parsed = |canonical: &str| {
        Some(ParsedManifest {
            identity: manifest("worker-one"),
            canonical_text: Some(canonical.to_owned()),
        })
    };
    assert!(client
        .machine_manifest(&data, &parsed("name = \"worker-one\"\n"), &expected(), &is_secret)
        .is_ok());
    assert_eq!(
        client
            .machine_manifest(&data, &None, &expected(), &is_secret)
            .err()
            .unwrap()
            .code(),
        ErrorCode::MachineManifestInvalid
    );
    assert_eq!(
        connected()
            .machine_manifest(&data, &parsed("name='worker-one'"), &expected(), &is_secret)
            .err()
            .unwrap()
            .code(),
        ErrorCode::ProtocolMalformed
    );
}

fn status() -> MachineStatus {
    MachineStatus {
        machine_id: parse_machine_id(MACHINE).unwrap(),
        time: "2024-05-01T10:00:00Z".to_owned(),
        cpu: CpuStatus {
            logical: 8,
            load_in_range: true,
        },
        memory: MemoryStatus {
            total_bytes: 100,
            available_bytes: 40,
        },
        disk: DiskStatus {
            root: "C:\\".to_owned(),
            free_bytes: 10,
        },
        jobs: JobStatus {
            running: 0,
            heavy_running: 0,
        },
        substrate: substrate_status(&None),
    }
}

#[test]
fn a_status_is_accepted_from_the_expected_machine() {
    let id = parse_machine_id(MACHINE).unwrap();
    assert!(status().validate_for_client(id, &is_secret).is_ok());
    assert!(status().validate_for_client(id + 1, &is_secret).is_err());
    let bad = |change: &dyn Fn(&mut MachineStatus)| {
        let mut status = status();
        change(&mut status);
        status.validate_for_client(id, &is_secret).is_err()
    };
    assert!(bad(&|status| status.time = "2024-13-01T10:00:00Z".to_owned()));
    assert!(bad(&|status| status.time = "yesterday".to_owned()));
    assert!(bad(&|status| status.cpu.load_in_range = false));
    assert!(bad(&|status| status.cpu.logical = 0));
    assert!(bad(&|status| status.memory.available_bytes = 101));
    assert!(bad(&|status| status.jobs.heavy_running = 1));
    assert!(bad(&|status| status.disk.root = String::new()));
    assert!(status().is_acceptable(id, true, &is_secret));
    assert!(!status().is_acceptable(id, false, &is_secret));
    let mut client = connected();
    assert!(client
        .machine_status(&object(vec![]), &Some(status()), &is_secret)
        .is_ok());
    assert!(client
        .machine_status(&object(vec![]), &None, &is_secret)
        .is_err());
}

fn components(text: &str) -> Vec<Vec<u8>> {
    text.split('/').map(|part| part.as_bytes().to_vec()).collect()
}

#[test]
fn the_disk_is_the_deepest_mount_of_the_root() {
    let mount = |text: &str, free_bytes: u64| Mount {
        components: components(text),
        free_bytes,
    };
    let mounts = [mount("a", 1), mount("a/b", 2), mount("a/bc", 3)];
    assert_eq!(choose_mount(&components("a/b/c"), &mounts), Some(1));
    assert_eq!(choose_mount(&components("a/x"), &mounts), Some(0));
    assert_eq!(choose_mount(&components("z"), &mounts), None);
    let drives = vec![mount("C:/\\", 1), mount("d:/\\/data", 2)];
    assert_eq!(choose_mount(&components("c:/\\/work"), &drives), Some(0));
    assert_eq!(choose_mount(&components("D:/\\/data/work"), &drives), Some(1));
    assert_eq!(choose_mount(&components("D:/\\/DATA/work"), &drives), None);

    let measured = || Measurements {
        time: "2024-05-01T10:00:00Z".to_owned(),
        cpu: CpuStatus {
            logical: 8,
            load_in_range: true,
        },
        memory: MemoryStatus {
            total_bytes: 100,
            available_bytes: 40,
        },
        mounts: vec![mount("a", 1), mount("a/b", 2)],
    };
    let id = parse_machine_id(MACHINE).unwrap();
    let captured = capture_machine_status(id, "a/b/c", &components("a/b/c"), &None, measured())
        .ok()
        .unwrap();
    assert_eq!(captured.disk.free_bytes, 2);
    assert_eq!(captured.disk.root, "a/b/c");
    assert!(captured.validate_for_client(id, &is_secret).is_ok());
    assert!(capture_machine_status(id, "z", &components("z"), &None, measured()).is_err());
}

#[test]
fn a_substrate_is_reported_by_what_is_installed() {
    let herdr = |installed, enabled| {
        substrate_status(&Some(HerdrSettings {
            installed: Some(installed),
            enabled: Some(enabled),
            session: Some("main".to_owned()),
        }))
    };
    let states: Vec<String> = [
        substrate_status(&None),
        herdr(true, true),
        herdr(true, false),
        herdr(false, true),
    ]
    .into_iter()
    .map(|status: SubstrateStatus| {
        assert!(valid_substrate_status(&status, &is_secret));
        status.state
    })
    .collect();
    assert_ne!(states[0], states[1]);
    let mut secret = herdr(true, true);
    secret.session = Some("api_key=1".to_owned());
    assert!(!valid_substrate_status(&secret, &is_secret));
}

#[test]
fn findings_of_pending_actions_can_be_reported() {
    let findings = vec![
        WorkerDoctorFinding::from_pending_action(0, PendingSeverity::Warning),
        WorkerDoctorFinding::from_pending_action(11, PendingSeverity::Error),
    ];
    assert_ne!(findings[0].id, findings[1].id);
    assert_eq!(findings[0].severity, WorkerDoctorSeverity::Warning);
    let probe = |_: &str| true;
    let report = doctor_report(findings, &is_secret, &probe).ok().unwrap();
    assert!(report.validate_for_client(&is_secret, &probe).is_ok());

    let mut told = WorkerDoctorReport {
        findings: vec![WorkerDoctorFinding {
            id: "x".to_owned(),
            state: WorkerDoctorFindingState::Fail,
            severity: WorkerDoctorSeverity::Info,
            message: "api_key=1".to_owned(),
            remediation: None,
        }],
        coverage: report.coverage.clone(),
        complete: report.complete,
    };
    assert!(told.validate_for_client(&is_secret, &probe).is_err());
    told.findings.clear();
    told.coverage = String::new();
    assert!(told.validate_for_client(&is_secret, &probe).is_err());
}

#[test]
fn fields_are_found_by_their_first_name() {
    let JsonValue::Object(fields) = object(vec![("a", JsonValue::Null), ("b", text("x"))]) else {
        panic!("it is an object");
    };
    assert!(matches!(get(&fields, "b"), Some(JsonValue::Text(value)) if value == "x"));
    assert!(get(&fields, "c").is_none());
}

#[test]
fn errors_keep_their_class() {
    assert_eq!(
        RpcError::frame(FrameError::io()).code(),
        ErrorCode::TransportSessionLost
    );
    assert_eq!(
        RpcError::frame(FrameError::new(FrameErrorKind::InvalidJson)).code(),
        ErrorCode::ProtocolMalformed
    );
    let error = PlatformError::Native {
        kind: ErrorKind::NotFound,
        code: Some(2),
    };
    assert_eq!((error.kind(), error.raw_os_error()), (ErrorKind::NotFound, Some(2)));
}
