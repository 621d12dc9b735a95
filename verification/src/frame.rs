//! The frames of the worker protocol: one JSON object on one line.

use crate::json;
use crate::json::{get, has_distinct_fields, Json, JsonValue};
use crate::machine_id;
use crate::machine_id::{machine_id_text, parse_machine_id};
use crate::text;
use crate::text::{chars_of, decode_chars, len_in_bytes, same_text, string_of};
use vstd::prelude::*;

verus! {

/// The most bytes that a frame may have, without its newline.
pub const MAX_FRAME_BYTES: usize = 4 * 1024 * 1024;

/// The most bytes of an identifier.
pub const MAX_ID_BYTES: usize = 64;

/// The most bytes of a version.
pub const MAX_VERSION_BYTES: usize = 128;

/// The most bytes of a machine's name.
pub const MAX_NAME_BYTES: usize = 255;

/// The most bytes of a method or the code of a diagnostic.
pub const MAX_METHOD_BYTES: usize = 64;

/// The most bytes of the message of a diagnostic.
pub const MAX_DIAGNOSTIC_BYTES: usize = 1024;

// ---------------------------------------------------------------------------
// Frames
// ---------------------------------------------------------------------------

/// How a worker introduces itself.
#[derive(Clone, Debug, PartialEq)]
pub struct ServerHello {
    pub protocol_min: u32,
    pub protocol_max: u32,
    pub styrn_version: String,
    pub machine_id: u128,
    pub name: String,
    pub manifest_schema_version: u64,
}

/// How a controller introduces itself.
#[derive(Clone, Debug, PartialEq)]
pub struct ClientHello {
    pub protocol: u32,
    pub styrn_version: String,
}

/// Why a request failed.
#[derive(Debug, PartialEq)]
pub struct RpcDiagnostic {
    pub code: String,
    pub message: String,
    pub details: Option<JsonValue>,
}

/// One message of the protocol.
#[derive(Debug, PartialEq)]
pub enum Frame {
    ServerHello(ServerHello),
    ClientHello(ClientHello),
    Request { id: String, method: String, params: JsonValue },
    Response { id: String, ok: bool, data: Option<JsonValue>, errors: Vec<RpcDiagnostic> },
    Error { id: String, errors: Vec<RpcDiagnostic> },
}

/// What a diagnostic says.
#[verifier::ext_equal]
pub struct DiagnosticModel {
    pub code: Seq<char>,
    pub message: Seq<char>,
    pub details: Option<Json>,
}

/// What a frame says.
#[verifier::ext_equal]
pub enum FrameModel {
    ServerHello {
        protocol_min: u32,
        protocol_max: u32,
        styrn_version: Seq<char>,
        machine_id: u128,
        name: Seq<char>,
        manifest_schema_version: u64,
    },
    ClientHello { protocol: u32, styrn_version: Seq<char> },
    Request { id: Seq<char>, method: Seq<char>, params: Json },
    Response { id: Seq<char>, ok: bool, data: Option<Json>, errors: Seq<DiagnosticModel> },
    Error { id: Seq<char>, errors: Seq<DiagnosticModel> },
}

/// What an optional value stands for.
pub open spec fn optional(value: Option<JsonValue>) -> Option<Json> {
    match value {
        Some(value) => Some(value@),
        None => None,
    }
}

impl View for RpcDiagnostic {
    type V = DiagnosticModel;

    open spec fn view(&self) -> DiagnosticModel {
        DiagnosticModel {
            code: self.code@,
            message: self.message@,
            details: optional(self.details),
        }
    }
}

/// What a list of diagnostics says.
pub open spec fn all_diagnostics(errors: Seq<RpcDiagnostic>) -> Seq<DiagnosticModel> {
    errors.map_values(|error: RpcDiagnostic| error@)
}

impl View for Frame {
    type V = FrameModel;

    open spec fn view(&self) -> FrameModel {
        match *self {
            Frame::ServerHello(hello) => FrameModel::ServerHello {
                protocol_min: hello.protocol_min,
                protocol_max: hello.protocol_max,
                styrn_version: hello.styrn_version@,
                machine_id: hello.machine_id,
                name: hello.name@,
                manifest_schema_version: hello.manifest_schema_version,
            },
            Frame::ClientHello(hello) => FrameModel::ClientHello {
                protocol: hello.protocol,
                styrn_version: hello.styrn_version@,
            },
            Frame::Request { id, method, params } => FrameModel::Request {
                id: id@,
                method: method@,
                params: params@,
            },
            Frame::Response { id, ok, data, errors } => FrameModel::Response {
                id: id@,
                ok,
                data: optional(data),
                errors: all_diagnostics(errors@),
            },
            Frame::Error { id, errors } => FrameModel::Error {
                id: id@,
                errors: all_diagnostics(errors@),
            },
        }
    }
}

impl RpcDiagnostic {
    /// A diagnostic without details.
    pub fn new(code: &str, message: &str) -> (diagnostic: Self)
        ensures
            diagnostic@ == (DiagnosticModel { code: code@, message: message@, details: None }),
    {
        RpcDiagnostic { code: code.to_owned(), message: message.to_owned(), details: None }
    }
}

impl Clone for RpcDiagnostic {
    fn clone(&self) -> (copy: Self)
        ensures
            copy@ == self@,
    {
        RpcDiagnostic {
            code: self.code.clone(),
            message: self.message.clone(),
            details: match &self.details {
                Some(details) => Some(details.clone()),
                None => None,
            },
        }
    }
}

/// Why a frame was not accepted.
#[derive(Clone, Copy, Debug, Eq, PartialEq, Structural)]
pub enum FrameErrorKind {
    Io,
    Oversize,
    Truncated,
    InvalidUtf8,
    InvalidJson,
    InvalidId,
    UnsupportedType,
}

/// A frame that was not accepted.
#[derive(Clone, Copy, Debug, Eq, PartialEq, Structural)]
pub struct FrameError {
    pub kind: FrameErrorKind,
}

/// What a frame that was not accepted is reported with.
pub open spec fn frame_error_message(kind: FrameErrorKind) -> &'static str {
    match kind {
        FrameErrorKind::Io => "RPC frame I/O failed",
        FrameErrorKind::Oversize => "RPC frame exceeded its size limit",
        FrameErrorKind::Truncated => "RPC frame ended before its newline",
        FrameErrorKind::InvalidUtf8 => "RPC frame was not valid UTF-8",
        FrameErrorKind::InvalidJson => "RPC frame JSON was malformed",
        FrameErrorKind::InvalidId => "RPC frame identifier was invalid",
        FrameErrorKind::UnsupportedType => "RPC frame type is unsupported",
    }
}

impl FrameError {
    /// A failure of the given kind.
    pub fn new(kind: FrameErrorKind) -> (error: Self)
        ensures
            error == (FrameError { kind }),
    {
        FrameError { kind }
    }

    /// Why the frame was not accepted.
    pub fn kind(&self) -> (kind: FrameErrorKind)
        ensures
            kind == self.kind,
    {
        self.kind
    }

    /// A failure of the transport.
    pub fn io() -> (error: Self)
        ensures
            error == (FrameError { kind: FrameErrorKind::Io }),
    {
        FrameError::new(FrameErrorKind::Io)
    }

    /// What the failure is reported with.
    pub fn message(&self) -> (message: &'static str)
        ensures
            message@ == frame_error_message(self.kind)@,
    {
        match self.kind {
            FrameErrorKind::Io => "RPC frame I/O failed",
            FrameErrorKind::Oversize => "RPC frame exceeded its size limit",
            FrameErrorKind::Truncated => "RPC frame ended before its newline",
            FrameErrorKind::InvalidUtf8 => "RPC frame was not valid UTF-8",
            FrameErrorKind::InvalidJson => "RPC frame JSON was malformed",
            FrameErrorKind::InvalidId => "RPC frame identifier was invalid",
            FrameErrorKind::UnsupportedType => "RPC frame type is unsupported",
        }
    }
}

// ---------------------------------------------------------------------------
// Lines
// ---------------------------------------------------------------------------

/// What a reader takes from a stream for one frame: everything up to and with
/// the first newline, and never more than two bytes over the limit.
pub open spec fn first_line(stream: Seq<u8>) -> Seq<u8> {
    line_within(stream, (MAX_FRAME_BYTES + 2) as nat)
}

/// Everything up to and with the first newline, and at most `limit` bytes.
pub open spec fn line_within(stream: Seq<u8>, limit: nat) -> Seq<u8>
    decreases stream.len(),
{
    if stream.len() == 0 || limit == 0 {
        seq![]
    } else if stream[0] == 10 {
        seq![10u8]
    } else {
        seq![stream[0]] + line_within(stream.drop_first(), (limit - 1) as nat)
    }
}

/// The text of the frame on a line; nothing at all is the end of the stream.
pub open spec fn line_text(line: Seq<u8>) -> Result<Option<Seq<char>>, FrameError> {
    if line.len() == 0 {
        Ok(None)
    } else if line.last() != 10 {
        Err(
            FrameError {
                kind: if line.len() > MAX_FRAME_BYTES {
                    FrameErrorKind::Oversize
                } else {
                    FrameErrorKind::Truncated
                },
            },
        )
    } else if line.len() - 1 > MAX_FRAME_BYTES {
        Err(FrameError { kind: FrameErrorKind::Oversize })
    } else {
        match text::decoded(line.drop_last()) {
            Some(text) => Ok(Some(text)),
            None => Err(FrameError { kind: FrameErrorKind::InvalidUtf8 }),
        }
    }
}

/// The text of the frame on `line`, the bytes that were read from a stream up
/// to and with its first newline.
pub fn read_frame_text(line: &[u8]) -> (result: Result<Option<String>, FrameError>)
    ensures
        match result {
            Ok(Some(text)) => line_text(line@) == Ok::<_, FrameError>(Some(text@)),
            Ok(None) => line_text(line@) == Ok::<Option<Seq<char>>, FrameError>(None),
            Err(error) => line_text(line@) == Err::<Option<Seq<char>>, _>(error),
        },
{
    let length: usize = line.len();
    if length == 0 {
        return Ok(None);
    }
    if line[length - 1] != 10 {
        return Err(
            FrameError::new(
                if length > MAX_FRAME_BYTES {
                    FrameErrorKind::Oversize
                } else {
                    FrameErrorKind::Truncated
                },
            ),
        );
    }
    if length - 1 > MAX_FRAME_BYTES {
        return Err(FrameError::new(FrameErrorKind::Oversize));
    }
    let bytes = vstd::slice::slice_subrange(line, 0, length - 1);
    assert(bytes@ == line@.drop_last());
    match decode_chars(bytes) {
        Some(chars) => Ok(Some(string_of(&chars))),
        None => Err(FrameError::new(FrameErrorKind::InvalidUtf8)),
    }
}

/// The line that carries the JSON text of a frame.
pub fn write_frame_line(text: Vec<u8>) -> (result: Result<Vec<u8>, FrameError>)
    ensures
        match result {
            Ok(line) => text@.len() <= MAX_FRAME_BYTES && line@ == text@.push(10),
            Err(error) => text@.len() > MAX_FRAME_BYTES && error == (FrameError {
                kind: FrameErrorKind::Oversize,
            }),
        },
{
    if text.len() > MAX_FRAME_BYTES {
        return Err(FrameError::new(FrameErrorKind::Oversize));
    }
    let mut line = text;
    line.push(10);
    Ok(line)
}

proof fn lemma_line_within(text: Seq<u8>, rest: Seq<u8>, limit: nat)
    requires
        text.len() < limit,
        forall|i: int| 0 <= i < text.len() ==> text[i] != 10,
    ensures
        line_within(text.push(10) + rest, limit) == text.push(10),
    decreases text.len(),
{
    let stream = text.push(10) + rest;
    if text.len() > 0 {
        let tail = text.drop_first();
        assert(stream.drop_first() =~= tail.push(10) + rest);
        lemma_line_within(tail, rest, (limit - 1) as nat);
        assert(seq![stream[0]] + tail.push(10) =~= text.push(10));
    } else {
        assert(text.push(10) =~= seq![10u8]);
    }
}

/// A line that was written is read back as the text it was written from,
/// whatever follows it in the stream.
pub proof fn written_lines_are_read_back(text: Seq<u8>, rest: Seq<u8>)
    requires
        text.len() <= MAX_FRAME_BYTES,
        forall|i: int| 0 <= i < text.len() ==> text[i] != 10,
        text::decoded(text) is Some,
    ensures
        first_line(text.push(10) + rest) == text.push(10),
        line_text(first_line(text.push(10) + rest)) == Ok::<_, FrameError>(text::decoded(text)),
{
    lemma_line_within(text, rest, (MAX_FRAME_BYTES + 2) as nat);
    assert(text.push(10).drop_last() =~= text);
}

// ---------------------------------------------------------------------------
// Fields
// ---------------------------------------------------------------------------

/// An optional text: a field that is absent or null says nothing.
pub open spec fn text_field(entries: Seq<(Seq<char>, Json)>, name: Seq<char>) -> Result<
    Option<Seq<char>>,
    (),
> {
    match json::field(entries, name) {
        None => Ok(None),
        Some(Json::Null) => Ok(None),
        Some(Json::Text(text)) => Ok(Some(text)),
        Some(_) => Err(()),
    }
}

/// An optional unsigned number of at most `maximum`.
pub open spec fn number_field(
    entries: Seq<(Seq<char>, Json)>,
    name: Seq<char>,
    maximum: u64,
) -> Result<Option<u64>, ()> {
    match json::field(entries, name) {
        None => Ok(None),
        Some(Json::Null) => Ok(None),
        Some(Json::Unsigned(number)) => if number <= maximum {
            Ok(Some(number))
        } else {
            Err(())
        },
        Some(_) => Err(()),
    }
}

/// An optional truth value.
pub open spec fn flag_field(entries: Seq<(Seq<char>, Json)>, name: Seq<char>) -> Result<
    Option<bool>,
    (),
> {
    match json::field(entries, name) {
        None => Ok(None),
        Some(Json::Null) => Ok(None),
        Some(Json::Bool(flag)) => Ok(Some(flag)),
        Some(_) => Err(()),
    }
}

/// An optional value of any type.
pub open spec fn value_field(entries: Seq<(Seq<char>, Json)>, name: Seq<char>) -> Option<Json> {
    match json::field(entries, name) {
        Some(Json::Null) => None,
        value => value,
    }
}

/// The diagnostic that a value describes: an object with a code, a message and
/// perhaps details, or the same as an array. Details are an object.
pub open spec fn diagnostic(value: Json) -> Option<DiagnosticModel> {
    match value {
        Json::Object(entries) => match (
            json::field(entries, "code"@),
            json::field(entries, "message"@),
            json::field(entries, "details"@),
        ) {
            (Some(Json::Text(code)), Some(Json::Text(message)), None) => Some(
                DiagnosticModel { code, message, details: None },
            ),
            (
                Some(Json::Text(code)),
                Some(Json::Text(message)),
                Some(Json::Object(details)),
            ) => Some(DiagnosticModel { code, message, details: Some(Json::Object(details)) }),
            _ => None,
        },
        Json::Array(items) => if items.len() == 2 {
            match (items[0], items[1]) {
                (Json::Text(code), Json::Text(message)) => Some(
                    DiagnosticModel { code, message, details: None },
                ),
                _ => None,
            }
        } else if items.len() == 3 {
            match (items[0], items[1], items[2]) {
                (Json::Text(code), Json::Text(message), Json::Object(details)) => Some(
                    DiagnosticModel { code, message, details: Some(Json::Object(details)) },
                ),
                _ => None,
            }
        } else {
            None
        },
        _ => None,
    }
}

/// The diagnostics that a list of values describes.
pub open spec fn diagnostics(items: Seq<Json>) -> Option<Seq<DiagnosticModel>> {
    if forall|i: int| 0 <= i < items.len() ==> diagnostic(#[trigger] items[i]) is Some {
        Some(Seq::new(items.len(), |i: int| diagnostic(items[i])->0))
    } else {
        None
    }
}

/// An optional list of diagnostics.
pub open spec fn diagnostics_field(entries: Seq<(Seq<char>, Json)>, name: Seq<char>) -> Result<
    Option<Seq<DiagnosticModel>>,
    (),
> {
    match json::field(entries, name) {
        None => Ok(None),
        Some(Json::Null) => Ok(None),
        Some(Json::Array(items)) => match diagnostics(items) {
            Some(errors) => Ok(Some(errors)),
            None => Err(()),
        },
        Some(_) => Err(()),
    }
}

fn read_text(entries: &[(String, JsonValue)], name: &str) -> (result: Result<Option<String>, ()>)
    ensures
        match result {
            Ok(Some(text)) => text_field(json::entries_model(entries@), name@) == Ok::<_, ()>(
                Some(text@),
            ),
            Ok(None) => text_field(json::entries_model(entries@), name@) == Ok::<
                Option<Seq<char>>,
                (),
            >(None),
            Err(_) => text_field(json::entries_model(entries@), name@) is Err,
        },
{
    match get(entries, name) {
        None => Ok(None),
        Some(JsonValue::Null) => Ok(None),
        Some(JsonValue::Text(text)) => Ok(Some(text.clone())),
        Some(_) => Err(()),
    }
}

fn read_number(entries: &[(String, JsonValue)], name: &str, maximum: u64) -> (result: Result<
    Option<u64>,
    (),
>)
    ensures
        match result {
            Ok(number) => number_field(json::entries_model(entries@), name@, maximum) == Ok::<
                _,
                (),
            >(number),
            Err(_) => number_field(json::entries_model(entries@), name@, maximum) is Err,
        },
{
    match get(entries, name) {
        None => Ok(None),
        Some(JsonValue::Null) => Ok(None),
        Some(JsonValue::Unsigned(number)) => if *number <= maximum {
            Ok(Some(*number))
        } else {
            Err(())
        },
        Some(_) => Err(()),
    }
}

fn read_small(entries: &[(String, JsonValue)], name: &str) -> (result: Result<Option<u32>, ()>)
    ensures
        match result {
            Ok(Some(number)) => number_field(
                json::entries_model(entries@),
                name@,
                u32::MAX as u64,
            ) == Ok::<_, ()>(Some(number as u64)),
            Ok(None) => number_field(json::entries_model(entries@), name@, u32::MAX as u64) == Ok::<
                Option<u64>,
                (),
            >(None),
            Err(_) => number_field(json::entries_model(entries@), name@, u32::MAX as u64) is Err,
        },
{
    match read_number(entries, name, u32::MAX as u64) {
        Ok(Some(number)) => Ok(Some(number as u32)),
        Ok(None) => Ok(None),
        Err(_) => Err(()),
    }
}

fn read_flag(entries: &[(String, JsonValue)], name: &str) -> (result: Result<Option<bool>, ()>)
    ensures
        match result {
            Ok(flag) => flag_field(json::entries_model(entries@), name@) == Ok::<_, ()>(flag),
            Err(_) => flag_field(json::entries_model(entries@), name@) is Err,
        },
{
    match get(entries, name) {
        None => Ok(None),
        Some(JsonValue::Null) => Ok(None),
        Some(JsonValue::Bool(flag)) => Ok(Some(*flag)),
        Some(_) => Err(()),
    }
}

fn read_value(entries: &[(String, JsonValue)], name: &str) -> (value: Option<JsonValue>)
    ensures
        optional(value) == value_field(json::entries_model(entries@), name@),
{
    match get(entries, name) {
        None => None,
        Some(JsonValue::Null) => None,
        Some(value) => Some(value.clone()),
    }
}

fn read_diagnostic(value: &JsonValue) -> (result: Option<RpcDiagnostic>)
    ensures
        match result {
            Some(error) => diagnostic(value@) == Some(error@),
            None => diagnostic(value@) is None,
        },
{
    proof {
        json::lemma_model(*value);
    }
    match value {
        JsonValue::Object(entries) => {
            let code = match get(entries, "code") {
                Some(JsonValue::Text(code)) => code,
                _ => {
                    return None;
                },
            };
            let message = match get(entries, "message") {
                Some(JsonValue::Text(message)) => message,
                _ => {
                    return None;
                },
            };
            let details = match get(entries, "details") {
                None => None,
                Some(details) => {
                    if !is_object(details) {
                        return None;
                    }
                    Some(details.clone())
                },
            };
            Some(RpcDiagnostic { code: code.clone(), message: message.clone(), details })
        },
        JsonValue::Array(items) => {
            assert(forall|i: int|
                0 <= i < items@.len() ==> json::items_model(items@)[i] == #[trigger] items@[i]@);
            if items.len() != 2 && items.len() != 3 {
                return None;
            }
            let code = match &items[0] {
                JsonValue::Text(code) => code,
                _ => {
                    return None;
                },
            };
            let message = match &items[1] {
                JsonValue::Text(message) => message,
                _ => {
                    return None;
                },
            };
            let details = if items.len() == 3 {
                if !is_object(&items[2]) {
                    return None;
                }
                Some(items[2].clone())
            } else {
                None
            };
            Some(RpcDiagnostic { code: code.clone(), message: message.clone(), details })
        },
        _ => None,
    }
}

/// Whether a value is an object.
pub fn is_object(value: &JsonValue) -> (holds: bool)
    ensures
        holds == (value@ is Object),
{
    match value {
        JsonValue::Object(_) => true,
        _ => false,
    }
}

fn read_diagnostics(entries: &[(String, JsonValue)], name: &str) -> (result: Result<
    Option<Vec<RpcDiagnostic>>,
    (),
>)
    ensures
        match result {
            Ok(Some(errors)) => diagnostics_field(json::entries_model(entries@), name@) == Ok::<
                _,
                (),
            >(Some(all_diagnostics(errors@))),
            Ok(None) => diagnostics_field(json::entries_model(entries@), name@) == Ok::<
                Option<Seq<DiagnosticModel>>,
                (),
            >(None),
            Err(_) => diagnostics_field(json::entries_model(entries@), name@) is Err,
        },
{
    match get(entries, name) {
        None => Ok(None),
        Some(JsonValue::Null) => Ok(None),
        Some(value) => {
            proof {
                json::lemma_model(*value);
            }
            match value {
                JsonValue::Array(items) => {
                    let ghost modelled = json::items_model(items@);
                    let mut errors: Vec<RpcDiagnostic> = Vec::new();
                    for i in 0..items.len()
                        invariant
                            modelled == json::items_model(items@),
                            value@ == Json::Array(modelled),
                            json::field(json::entries_model(entries@), name@) == Some(value@),
                            errors@.len() == i,
                            forall|k: int|
                                0 <= k < i ==> diagnostic(#[trigger] modelled[k]) == Some(
                                    errors@[k]@,
                                ),
                    {
                        assert(modelled[i as int] == items@[i as int]@);
                        match read_diagnostic(&items[i]) {
                            Some(error) => {
                                errors.push(error);
                            },
                            None => {
                                assert(diagnostic(modelled[i as int]) is None);
                                return Err(());
                            },
                        }
                    }
                    assert(diagnostics(modelled)->0 =~= all_diagnostics(errors@));
                    Ok(Some(errors))
                },
                _ => Err(()),
            }
        },
    }
}

// ---------------------------------------------------------------------------
// Decoding
// ---------------------------------------------------------------------------

/// The fields of a frame, read by type.
pub struct RawFrame {
    pub id: String,
    pub kind: String,
    pub protocol_min: Option<u32>,
    pub protocol_max: Option<u32>,
    pub protocol: Option<u32>,
    pub styrn_version: Option<String>,
    pub machine_id: Option<String>,
    pub name: Option<String>,
    pub manifest_schema_version: Option<u64>,
    pub method: Option<String>,
    pub params: Option<JsonValue>,
    pub ok: Option<bool>,
    pub data: Option<JsonValue>,
    pub errors: Option<Vec<RpcDiagnostic>>,
}

/// What the fields of a frame say.
#[verifier::ext_equal]
pub struct RawFrameModel {
    pub id: Seq<char>,
    pub kind: Seq<char>,
    pub protocol_min: Option<u32>,
    pub protocol_max: Option<u32>,
    pub protocol: Option<u32>,
    pub styrn_version: Option<Seq<char>>,
    pub machine_id: Option<Seq<char>>,
    pub name: Option<Seq<char>>,
    pub manifest_schema_version: Option<u64>,
    pub method: Option<Seq<char>>,
    pub params: Option<Json>,
    pub ok: Option<bool>,
    pub data: Option<Json>,
    pub errors: Option<Seq<DiagnosticModel>>,
}

impl View for RawFrame {
    type V = RawFrameModel;

    open spec fn view(&self) -> RawFrameModel {
        RawFrameModel {
            id: self.id@,
            kind: self.kind@,
            protocol_min: self.protocol_min,
            protocol_max: self.protocol_max,
            protocol: self.protocol,
            styrn_version: text::optional_text(self.styrn_version),
            machine_id: text::optional_text(self.machine_id),
            name: text::optional_text(self.name),
            manifest_schema_version: self.manifest_schema_version,
            method: text::optional_text(self.method),
            params: optional(self.params),
            ok: self.ok,
            data: optional(self.data),
            errors: match self.errors {
                Some(errors) => Some(all_diagnostics(errors@)),
                None => None,
            },
        }
    }
}

/// Which fields of a frame are there, null or not.
#[derive(Clone, Copy, Debug, PartialEq, Eq, Structural)]
pub struct RawFramePresence {
    pub protocol_min: bool,
    pub protocol_max: bool,
    pub protocol: bool,
    pub styrn_version: bool,
    pub machine_id: bool,
    pub name: bool,
    pub manifest_schema_version: bool,
    pub method: bool,
    pub params: bool,
    pub ok: bool,
    pub data: bool,
    pub errors: bool,
}

/// Whether a field is there.
pub open spec fn present(entries: Seq<(Seq<char>, Json)>, name: Seq<char>) -> bool {
    json::field(entries, name) is Some
}

/// Which fields an object has.
pub open spec fn presence(entries: Seq<(Seq<char>, Json)>) -> RawFramePresence {
    RawFramePresence {
        protocol_min: present(entries, "protocol_min"@),
        protocol_max: present(entries, "protocol_max"@),
        protocol: present(entries, "protocol"@),
        styrn_version: present(entries, "styrn_version"@),
        machine_id: present(entries, "machine_id"@),
        name: present(entries, "name"@),
        manifest_schema_version: present(entries, "manifest_schema_version"@),
        method: present(entries, "method"@),
        params: present(entries, "params"@),
        ok: present(entries, "ok"@),
        data: present(entries, "data"@),
        errors: present(entries, "errors"@),
    }
}

impl RawFramePresence {
    /// Which fields `object` has.
    pub fn from_object(object: &[(String, JsonValue)]) -> (found: Self)
        ensures
            found == presence(json::entries_model(object@)),
    {
        RawFramePresence {
            protocol_min: get(object, "protocol_min").is_some(),
            protocol_max: get(object, "protocol_max").is_some(),
            protocol: get(object, "protocol").is_some(),
            styrn_version: get(object, "styrn_version").is_some(),
            machine_id: get(object, "machine_id").is_some(),
            name: get(object, "name").is_some(),
            manifest_schema_version: get(object, "manifest_schema_version").is_some(),
            method: get(object, "method").is_some(),
            params: get(object, "params").is_some(),
            ok: get(object, "ok").is_some(),
            data: get(object, "data").is_some(),
            errors: get(object, "errors").is_some(),
        }
    }
}

/// A number that is at most `u32::MAX`.
pub open spec fn small(number: Option<u64>) -> Option<u32> {
    match number {
        Some(number) => Some(number as u32),
        None => None,
    }
}

/// Every field of a frame has the type that it must have.
pub open spec fn well_typed(entries: Seq<(Seq<char>, Json)>) -> bool {
    &&& json::field(entries, "id"@) matches Some(Json::Text(_))
    &&& json::field(entries, "type"@) matches Some(Json::Text(_))
    &&& number_field(entries, "protocol_min"@, u32::MAX as u64) is Ok
    &&& number_field(entries, "protocol_max"@, u32::MAX as u64) is Ok
    &&& number_field(entries, "protocol"@, u32::MAX as u64) is Ok
    &&& text_field(entries, "styrn_version"@) is Ok
    &&& text_field(entries, "machine_id"@) is Ok
    &&& text_field(entries, "name"@) is Ok
    &&& number_field(entries, "manifest_schema_version"@, u64::MAX) is Ok
    &&& text_field(entries, "method"@) is Ok
    &&& flag_field(entries, "ok"@) is Ok
    &&& diagnostics_field(entries, "errors"@) is Ok
}

/// What the fields of a frame say, where each has the type that it must have.
pub open spec fn raw_frame(entries: Seq<(Seq<char>, Json)>) -> RawFrameModel {
    RawFrameModel {
        id: text_field(entries, "id"@)->Ok_0->0,
        kind: text_field(entries, "type"@)->Ok_0->0,
        protocol_min: small(number_field(entries, "protocol_min"@, u32::MAX as u64)->Ok_0),
        protocol_max: small(number_field(entries, "protocol_max"@, u32::MAX as u64)->Ok_0),
        protocol: small(number_field(entries, "protocol"@, u32::MAX as u64)->Ok_0),
        styrn_version: text_field(entries, "styrn_version"@)->Ok_0,
        machine_id: text_field(entries, "machine_id"@)->Ok_0,
        name: text_field(entries, "name"@)->Ok_0,
        manifest_schema_version: number_field(
            entries,
            "manifest_schema_version"@,
            u64::MAX,
        )->Ok_0,
        method: text_field(entries, "method"@)->Ok_0,
        params: value_field(entries, "params"@),
        ok: flag_field(entries, "ok"@)->Ok_0,
        data: value_field(entries, "data"@),
        errors: diagnostics_field(entries, "errors"@)->Ok_0,
    }
}

fn read_raw_frame(object: &[(String, JsonValue)]) -> (result: Result<RawFrame, ()>)
    ensures
        match result {
            Ok(raw) => well_typed(json::entries_model(object@)) && raw@ == raw_frame(
                json::entries_model(object@),
            ),
            Err(_) => !well_typed(json::entries_model(object@)),
        },
{
    let id = match read_text(object, "id")? {
        Some(id) => id,
        None => {
            return Err(());
        },
    };
    let kind = match read_text(object, "type")? {
        Some(kind) => kind,
        None => {
            return Err(());
        },
    };
    Ok(
        RawFrame {
            id,
            kind,
            protocol_min: read_small(object, "protocol_min")?,
            protocol_max: read_small(object, "protocol_max")?,
            protocol: read_small(object, "protocol")?,
            styrn_version: read_text(object, "styrn_version")?,
            machine_id: read_text(object, "machine_id")?,
            name: read_text(object, "name")?,
            manifest_schema_version: read_number(object, "manifest_schema_version", u64::MAX)?,
            method: read_text(object, "method")?,
            params: read_value(object, "params"),
            ok: read_flag(object, "ok")?,
            data: read_value(object, "data"),
            errors: read_diagnostics(object, "errors")?,
        },
    )
}

/// The refusal of a frame.
pub open spec fn refused(kind: FrameErrorKind) -> Result<FrameModel, FrameError> {
    Err(FrameError { kind })
}

/// A text that is there, is not empty and has at most `limit` bytes.
pub open spec fn bounded(value: Option<Seq<char>>, limit: usize) -> bool {
    value matches Some(value) && value.len() > 0 && text::byte_len(value) <= limit
}

fn within(value: &str, limit: usize) -> (holds: bool)
    ensures
        holds == bounded(Some(value@), limit),
{
    proof {
        vstd::utf8::encode_utf8_decode_utf8(value@);
        if value@.len() == 0 {
            assert(text::byte_len(value@) == 0);
        }
    }
    let length: usize = len_in_bytes(value);
    proof {
        if length == 0 {
            lemma_empty_text(value@);
        }
    }
    length != 0 && length <= limit
}

proof fn lemma_empty_text(value: Seq<char>)
    requires
        text::byte_len(value) == 0,
    ensures
        value.len() == 0,
{
    vstd::utf8::encode_utf8_decode_utf8(value);
    vstd::utf8::encode_utf8_decode_utf8(seq![]);
    assert(vstd::utf8::encode_utf8(value) =~= vstd::utf8::encode_utf8(Seq::<char>::empty()));
}

/// The hello that fields describe: a worker's states a range of protocols and
/// the worker's identity, a controller's states one protocol and nothing more.
pub open spec fn hello_frame(raw: RawFrameModel, found: RawFramePresence) -> Result<
    FrameModel,
    FrameError,
> {
    if raw.id != "hello"@ || found.method || found.params || found.ok || found.data || found.errors
        || !bounded(raw.styrn_version, MAX_VERSION_BYTES) {
        refused(FrameErrorKind::InvalidJson)
    } else {
        match (raw.protocol_min, raw.protocol_max, raw.protocol) {
            (Some(low), Some(high), None) => if 0 < low <= high && !found.protocol
                && raw.machine_id is Some && machine_id::named_machine(raw.machine_id->0) is Some
                && bounded(raw.name, MAX_NAME_BYTES) && raw.manifest_schema_version is Some {
                Ok(
                    FrameModel::ServerHello {
                        protocol_min: low,
                        protocol_max: high,
                        styrn_version: raw.styrn_version->0,
                        machine_id: machine_id::named_machine(raw.machine_id->0)->0,
                        name: raw.name->0,
                        manifest_schema_version: raw.manifest_schema_version->0,
                    },
                )
            } else {
                refused(FrameErrorKind::InvalidJson)
            },
            (None, None, Some(protocol)) => if protocol > 0 && !found.protocol_min
                && !found.protocol_max && !found.machine_id && !found.name
                && !found.manifest_schema_version {
                Ok(
                    FrameModel::ClientHello {
                        protocol,
                        styrn_version: raw.styrn_version->0,
                    },
                )
            } else {
                refused(FrameErrorKind::InvalidJson)
            },
            _ => refused(FrameErrorKind::InvalidJson),
        }
    }
}

/// What a frame was decoded to.
pub open spec fn outcome(result: Result<Frame, FrameError>) -> Result<FrameModel, FrameError> {
    match result {
        Ok(frame) => Ok(frame@),
        Err(error) => Err(error),
    }
}

/// Decodes a hello.
pub fn decode_hello(raw: RawFrame, presence: RawFramePresence) -> (result: Result<
    Frame,
    FrameError,
>)
    ensures
        outcome(result) == hello_frame(raw@, presence),
{
    if !same_text(raw.id.as_str(), "hello") || presence.method || presence.params || presence.ok
        || presence.data || presence.errors {
        return Err(FrameError::new(FrameErrorKind::InvalidJson));
    }
    let version = match raw.styrn_version {
        Some(version) => version,
        None => {
            return Err(FrameError::new(FrameErrorKind::InvalidJson));
        },
    };
    if !within(version.as_str(), MAX_VERSION_BYTES) {
        return Err(FrameError::new(FrameErrorKind::InvalidJson));
    }
    match (raw.protocol_min, raw.protocol_max, raw.protocol) {
        (Some(protocol_min), Some(protocol_max), None) => {
            if protocol_min == 0 || protocol_min > protocol_max || presence.protocol {
                return Err(FrameError::new(FrameErrorKind::InvalidJson));
            }
            let machine_text = match raw.machine_id {
                Some(text) => text,
                None => {
                    return Err(FrameError::new(FrameErrorKind::InvalidJson));
                },
            };
            let machine_id: u128 = match parse_machine_id(machine_text.as_str()) {
                Some(id) => id,
                None => {
                    return Err(FrameError::new(FrameErrorKind::InvalidJson));
                },
            };
            let name = match raw.name {
                Some(name) => name,
                None => {
                    return Err(FrameError::new(FrameErrorKind::InvalidJson));
                },
            };
            if !within(name.as_str(), MAX_NAME_BYTES) {
                return Err(FrameError::new(FrameErrorKind::InvalidJson));
            }
            let manifest_schema_version: u64 = match raw.manifest_schema_version {
                Some(version) => version,
                None => {
                    return Err(FrameError::new(FrameErrorKind::InvalidJson));
                },
            };
            Ok(
                Frame::ServerHello(
                    ServerHello {
                        protocol_min,
                        protocol_max,
                        styrn_version: version,
                        machine_id,
                        name,
                        manifest_schema_version,
                    },
                ),
            )
        },
        (None, None, Some(protocol)) => {
            if protocol == 0 || presence.protocol_min || presence.protocol_max
                || presence.machine_id || presence.name || presence.manifest_schema_version {
                return Err(FrameError::new(FrameErrorKind::InvalidJson));
            }
            Ok(Frame::ClientHello(ClientHello { protocol, styrn_version: version }))
        },
        _ => Err(FrameError::new(FrameErrorKind::InvalidJson)),
    }
}

/// The identifiers that a controller gives to its requests: a letter and a
/// number without leading zeros.
pub open spec fn controller_id(id: Seq<char>) -> bool {
    &&& id.len() >= 2
    &&& id[0] == 'c'
    &&& id[1] != '0'
    &&& forall|i: int| 1 <= i < id.len() ==> '0' <= #[trigger] id[i] <= '9'
}

/// Accepts the identifiers that a controller gives to its requests.
pub fn validate_controller_id(id: &str) -> (result: Result<(), FrameError>)
    ensures
        result == (if controller_id(id@) {
            Ok::<(), FrameError>(())
        } else {
            Err(FrameError { kind: FrameErrorKind::InvalidId })
        }),
{
    let chars = chars_of(id);
    if chars.len() < 2 || chars[0] != 'c' || chars[1] == '0' {
        return Err(FrameError::new(FrameErrorKind::InvalidId));
    }
    for i in 1..chars.len()
        invariant
            chars@ == id@,
            chars@.len() >= 2,
            forall|k: int| 1 <= k < i ==> '0' <= #[trigger] chars@[k] <= '9',
    {
        if !('0' <= chars[i] && chars[i] <= '9') {
            return Err(FrameError::new(FrameErrorKind::InvalidId));
        }
    }
    Ok(())
}

/// A diagnostic that may stand in a frame.
pub open spec fn acceptable(error: DiagnosticModel) -> bool {
    &&& bounded(Some(error.code), MAX_METHOD_BYTES)
    &&& bounded(Some(error.message), MAX_DIAGNOSTIC_BYTES)
    &&& error.details matches Some(details) ==> details is Object
}

/// Diagnostics that may stand in a frame.
pub open spec fn all_acceptable(errors: Seq<DiagnosticModel>) -> bool {
    forall|i: int| 0 <= i < errors.len() ==> acceptable(#[trigger] errors[i])
}

/// Whether diagnostics may stand in a frame.
pub fn valid_diagnostics(errors: &[RpcDiagnostic]) -> (valid: bool)
    ensures
        valid == all_acceptable(all_diagnostics(errors@)),
{
    let ghost modelled = all_diagnostics(errors@);
    for i in 0..errors.len()
        invariant
            modelled == all_diagnostics(errors@),
            forall|k: int| 0 <= k < i ==> acceptable(#[trigger] modelled[k]),
    {
        let error = &errors[i];
        assert(modelled[i as int] == error@);
        let details_valid = match &error.details {
            Some(details) => is_object(details),
            None => true,
        };
        if !(within(error.code.as_str(), MAX_METHOD_BYTES) && within(
            error.message.as_str(),
            MAX_DIAGNOSTIC_BYTES,
        ) && details_valid) {
            assert(!acceptable(modelled[i as int]));
            return false;
        }
    }
    true
}

/// Whether a field that only hellos have is there.
pub open spec fn has_hello_field(found: RawFramePresence) -> bool {
    found.protocol_min || found.protocol_max || found.protocol || found.styrn_version
        || found.machine_id || found.name || found.manifest_schema_version
}

fn has_any_hello_field(found: &RawFramePresence) -> (holds: bool)
    ensures
        holds == has_hello_field(*found),
{
    found.protocol_min || found.protocol_max || found.protocol || found.styrn_version
        || found.machine_id || found.name || found.manifest_schema_version
}

/// The request that fields describe: a method and an object of parameters.
pub open spec fn request_frame(raw: RawFrameModel, found: RawFramePresence) -> Result<
    FrameModel,
    FrameError,
> {
    if !controller_id(raw.id) {
        refused(FrameErrorKind::InvalidId)
    } else if has_hello_field(found) || found.ok || found.data || found.errors || !bounded(
        raw.method,
        MAX_METHOD_BYTES,
    ) || !(raw.params matches Some(Json::Object(_))) {
        refused(FrameErrorKind::InvalidJson)
    } else {
        Ok(FrameModel::Request { id: raw.id, method: raw.method->0, params: raw.params->0 })
    }
}

/// Decodes a request.
pub fn decode_request(raw: RawFrame, presence: RawFramePresence) -> (result: Result<
    Frame,
    FrameError,
>)
    ensures
        outcome(result) == request_frame(raw@, presence),
{
    match validate_controller_id(raw.id.as_str()) {
        Ok(()) => {},
        Err(error) => {
            return Err(error);
        },
    }
    if has_any_hello_field(&presence) || presence.ok || presence.data || presence.errors {
        return Err(FrameError::new(FrameErrorKind::InvalidJson));
    }
    let method = match raw.method {
        Some(method) => method,
        None => {
            return Err(FrameError::new(FrameErrorKind::InvalidJson));
        },
    };
    if !within(method.as_str(), MAX_METHOD_BYTES) {
        return Err(FrameError::new(FrameErrorKind::InvalidJson));
    }
    let params = match raw.params {
        Some(params) => params,
        None => {
            return Err(FrameError::new(FrameErrorKind::InvalidJson));
        },
    };
    if !is_object(&params) {
        return Err(FrameError::new(FrameErrorKind::InvalidJson));
    }
    Ok(Frame::Request { id: raw.id, method, params })
}

/// The response that fields describe: data where the request succeeded, else
/// at least one diagnostic.
pub open spec fn response_frame(raw: RawFrameModel, found: RawFramePresence) -> Result<
    FrameModel,
    FrameError,
> {
    let errors = match raw.errors {
        Some(errors) => errors,
        None => seq![],
    };
    if !controller_id(raw.id) {
        refused(FrameErrorKind::InvalidId)
    } else if has_hello_field(found) || found.method || found.params || raw.ok is None {
        refused(FrameErrorKind::InvalidJson)
    } else if raw.ok == Some(true) && (raw.data is None || found.errors) {
        refused(FrameErrorKind::InvalidJson)
    } else if raw.ok == Some(false) && (found.data || errors.len() == 0 || !all_acceptable(
        errors,
    )) {
        refused(FrameErrorKind::InvalidJson)
    } else {
        Ok(FrameModel::Response { id: raw.id, ok: raw.ok->0, data: raw.data, errors })
    }
}

/// Decodes a response.
pub fn decode_response(raw: RawFrame, presence: RawFramePresence) -> (result: Result<
    Frame,
    FrameError,
>)
    ensures
        outcome(result) == response_frame(raw@, presence),
{
    match validate_controller_id(raw.id.as_str()) {
        Ok(()) => {},
        Err(error) => {
            return Err(error);
        },
    }
    if has_any_hello_field(&presence) || presence.method || presence.params {
        return Err(FrameError::new(FrameErrorKind::InvalidJson));
    }
    let ok = match raw.ok {
        Some(ok) => ok,
        None => {
            return Err(FrameError::new(FrameErrorKind::InvalidJson));
        },
    };
    let errors: Vec<RpcDiagnostic> = match raw.errors {
        Some(errors) => errors,
        None => Vec::new(),
    };
    assert(all_diagnostics(errors@) =~= match raw@.errors {
        Some(errors) => errors,
        None => seq![],
    });
    if ok {
        if raw.data.is_none() || presence.errors {
            return Err(FrameError::new(FrameErrorKind::InvalidJson));
        }
    } else if presence.data || errors.len() == 0 || !valid_diagnostics(&errors) {
        return Err(FrameError::new(FrameErrorKind::InvalidJson));
    }
    Ok(Frame::Response { id: raw.id, ok, data: raw.data, errors })
}

/// The error that fields describe: at least one diagnostic, about the hello or
/// a request.
pub open spec fn error_frame(raw: RawFrameModel, found: RawFramePresence) -> Result<
    FrameModel,
    FrameError,
> {
    if has_hello_field(found) || found.method || found.params || found.ok || found.data {
        refused(FrameErrorKind::InvalidJson)
    } else if raw.id != "hello"@ && !controller_id(raw.id) {
        refused(FrameErrorKind::InvalidId)
    } else {
        match raw.errors {
            Some(errors) => if errors.len() > 0 && all_acceptable(errors) {
                Ok(FrameModel::Error { id: raw.id, errors })
            } else {
                refused(FrameErrorKind::InvalidJson)
            },
            None => refused(FrameErrorKind::InvalidJson),
        }
    }
}

/// Decodes an error.
pub fn decode_error(raw: RawFrame, presence: RawFramePresence) -> (result: Result<
    Frame,
    FrameError,
>)
    ensures
        outcome(result) == error_frame(raw@, presence),
{
    if has_any_hello_field(&presence) || presence.method || presence.params || presence.ok
        || presence.data {
        return Err(FrameError::new(FrameErrorKind::InvalidJson));
    }
    if !same_text(raw.id.as_str(), "hello") {
        match validate_controller_id(raw.id.as_str()) {
            Ok(()) => {},
            Err(error) => {
                return Err(error);
            },
        }
    }
    let errors: Vec<RpcDiagnostic> = match raw.errors {
        Some(errors) => errors,
        None => {
            return Err(FrameError::new(FrameErrorKind::InvalidJson));
        },
    };
    if errors.len() == 0 || !valid_diagnostics(&errors) {
        return Err(FrameError::new(FrameErrorKind::InvalidJson));
    }
    Ok(Frame::Error { id: raw.id, errors })
}

/// The frame that a JSON value describes.
pub open spec fn decoded_frame(value: Json) -> Result<FrameModel, FrameError> {
    match value {
        Json::Object(entries) => if !json::distinct_fields(value) {
            refused(FrameErrorKind::InvalidJson)
        } else {
            match json::field(entries, "type"@) {
                Some(Json::Text(kind)) => if kind != "hello"@ && kind != "request"@ && kind
                    != "response"@ && kind != "error"@ {
                    refused(FrameErrorKind::UnsupportedType)
                } else if !well_typed(entries) {
                    refused(FrameErrorKind::InvalidJson)
                } else if text::byte_len(raw_frame(entries).id) > MAX_ID_BYTES {
                    refused(FrameErrorKind::InvalidId)
                } else if kind == "hello"@ {
                    hello_frame(raw_frame(entries), presence(entries))
                } else if kind == "request"@ {
                    request_frame(raw_frame(entries), presence(entries))
                } else if kind == "response"@ {
                    response_frame(raw_frame(entries), presence(entries))
                } else {
                    error_frame(raw_frame(entries), presence(entries))
                },
                _ => refused(FrameErrorKind::InvalidJson),
            }
        },
        _ => refused(FrameErrorKind::InvalidJson),
    }
}

/// Decodes a frame.
pub fn decode(value: &JsonValue) -> (result: Result<Frame, FrameError>)
    ensures
        outcome(result) == decoded_frame(value@),
{
    proof {
        json::lemma_model(*value);
    }
    if !has_distinct_fields(value) {
        return Err(FrameError::new(FrameErrorKind::InvalidJson));
    }
    let object = match value {
        JsonValue::Object(object) => object,
        _ => {
            return Err(FrameError::new(FrameErrorKind::InvalidJson));
        },
    };
    let kind = match get(object, "type") {
        Some(JsonValue::Text(kind)) => kind,
        _ => {
            return Err(FrameError::new(FrameErrorKind::InvalidJson));
        },
    };
    let is_hello = same_text(kind.as_str(), "hello");
    let is_request = same_text(kind.as_str(), "request");
    let is_response = same_text(kind.as_str(), "response");
    if !is_hello && !is_request && !is_response && !same_text(kind.as_str(), "error") {
        return Err(FrameError::new(FrameErrorKind::UnsupportedType));
    }
    let presence = RawFramePresence::from_object(object);
    let raw = match read_raw_frame(object) {
        Ok(raw) => raw,
        Err(_) => {
            return Err(FrameError::new(FrameErrorKind::InvalidJson));
        },
    };
    if len_in_bytes(raw.id.as_str()) > MAX_ID_BYTES {
        return Err(FrameError::new(FrameErrorKind::InvalidId));
    }
    if is_hello {
        decode_hello(raw, presence)
    } else if is_request {
        decode_request(raw, presence)
    } else if is_response {
        decode_response(raw, presence)
    } else {
        decode_error(raw, presence)
    }
}

// ---------------------------------------------------------------------------
// Encoding
// ---------------------------------------------------------------------------

/// The object that a diagnostic is written as.
pub open spec fn encoded_diagnostic(error: DiagnosticModel) -> Json {
    let required = seq![
        ("code"@, Json::Text(error.code)),
        ("message"@, Json::Text(error.message)),
    ];
    match error.details {
        Some(details) => Json::Object(required.push(("details"@, details))),
        None => Json::Object(required),
    }
}

/// The array that diagnostics are written as.
pub open spec fn encoded_diagnostics(errors: Seq<DiagnosticModel>) -> Json {
    Json::Array(errors.map_values(|error: DiagnosticModel| encoded_diagnostic(error)))
}

/// The fields that a frame is written with, in order.
pub open spec fn encoded_fields(frame: FrameModel) -> Seq<(Seq<char>, Json)> {
    match frame {
        FrameModel::ServerHello {
            protocol_min,
            protocol_max,
            styrn_version,
            machine_id,
            name,
            manifest_schema_version,
        } => seq![
            ("id"@, Json::Text("hello"@)),
            ("type"@, Json::Text("hello"@)),
            ("protocol_min"@, Json::Unsigned(protocol_min as u64)),
            ("protocol_max"@, Json::Unsigned(protocol_max as u64)),
            ("styrn_version"@, Json::Text(styrn_version)),
            ("machine_id"@, Json::Text(machine_id::canonical_text(machine_id))),
            ("name"@, Json::Text(name)),
            ("manifest_schema_version"@, Json::Unsigned(manifest_schema_version)),
        ],
        FrameModel::ClientHello { protocol, styrn_version } => seq![
            ("id"@, Json::Text("hello"@)),
            ("type"@, Json::Text("hello"@)),
            ("protocol"@, Json::Unsigned(protocol as u64)),
            ("styrn_version"@, Json::Text(styrn_version)),
        ],
        FrameModel::Request { id, method, params } => seq![
            ("id"@, Json::Text(id)),
            ("type"@, Json::Text("request"@)),
            ("method"@, Json::Text(method)),
            ("params"@, params),
        ],
        FrameModel::Response { id, ok, data, errors } => seq![
            ("id"@, Json::Text(id)),
            ("type"@, Json::Text("response"@)),
            ("ok"@, Json::Bool(ok)),
            if ok {
                ("data"@, match data {
                    Some(data) => data,
                    None => Json::Null,
                })
            } else {
                ("errors"@, encoded_diagnostics(errors))
            },
        ],
        FrameModel::Error { id, errors } => seq![
            ("id"@, Json::Text(id)),
            ("type"@, Json::Text("error"@)),
            ("errors"@, encoded_diagnostics(errors)),
        ],
    }
}

/// The object that a frame is written as.
pub open spec fn encoded(frame: FrameModel) -> Json {
    Json::Object(encoded_fields(frame))
}

fn put(object: &mut Vec<(String, JsonValue)>, name: &str, value: JsonValue)
    ensures
        json::entries_model(final(object)@) == json::entries_model(old(object)@).push(
            (name@, value@),
        ),
{
    let entry = (name.to_owned(), value);
    object.push(entry);
    assert(json::entries_model(object@) =~= json::entries_model(old(object)@).push(
        (name@, value@),
    ));
}

fn put_text(object: &mut Vec<(String, JsonValue)>, name: &str, value: &str)
    ensures
        json::entries_model(final(object)@) == json::entries_model(old(object)@).push(
            (name@, Json::Text(value@)),
        ),
{
    put(object, name, JsonValue::Text(value.to_owned()));
}

fn encode_diagnostic(error: &RpcDiagnostic) -> (value: JsonValue)
    ensures
        value@ == encoded_diagnostic(error@),
{
    let mut object: Vec<(String, JsonValue)> = Vec::new();
    assert(json::entries_model(object@) =~= seq![]);
    put_text(&mut object, "code", error.code.as_str());
    put_text(&mut object, "message", error.message.as_str());
    match &error.details {
        Some(details) => {
            put(&mut object, "details", details.clone());
        },
        None => {},
    }
    let value = JsonValue::Object(object);
    proof {
        json::lemma_model(value);
        assert(value@->Object_0 =~= encoded_diagnostic(error@)->Object_0);
    }
    value
}

fn encode_diagnostics(errors: &[RpcDiagnostic]) -> (value: JsonValue)
    ensures
        value@ == encoded_diagnostics(all_diagnostics(errors@)),
{
    let mut items: Vec<JsonValue> = Vec::new();
    for i in 0..errors.len()
        invariant
            items@.len() == i,
            forall|k: int|
                0 <= k < i ==> (#[trigger] items@[k])@ == encoded_diagnostic(errors@[k]@),
    {
        items.push(encode_diagnostic(&errors[i]));
    }
    let value = JsonValue::Array(items);
    proof {
        json::lemma_model(value);
        assert(value@->Array_0 =~= encoded_diagnostics(all_diagnostics(errors@))->Array_0);
    }
    value
}

impl Frame {
    /// The object that the frame is written as.
    pub fn to_json(&self) -> (value: JsonValue)
        ensures
            value@ == encoded(self@),
    {
        let mut object: Vec<(String, JsonValue)> = Vec::new();
        assert(json::entries_model(object@) =~= seq![]);
        match self {
            Frame::ServerHello(hello) => {
                put_text(&mut object, "id", "hello");
                put_text(&mut object, "type", "hello");
                put(
                    &mut object,
                    "protocol_min",
                    JsonValue::Unsigned(hello.protocol_min as u64),
                );
                put(
                    &mut object,
                    "protocol_max",
                    JsonValue::Unsigned(hello.protocol_max as u64),
                );
                put_text(&mut object, "styrn_version", hello.styrn_version.as_str());
                put_text(&mut object, "machine_id", machine_id_text(hello.machine_id).as_str());
                put_text(&mut object, "name", hello.name.as_str());
                put(
                    &mut object,
                    "manifest_schema_version",
                    JsonValue::Unsigned(hello.manifest_schema_version),
                );
            },
            Frame::ClientHello(hello) => {
                put_text(&mut object, "id", "hello");
                put_text(&mut object, "type", "hello");
                put(&mut object, "protocol", JsonValue::Unsigned(hello.protocol as u64));
                put_text(&mut object, "styrn_version", hello.styrn_version.as_str());
            },
            Frame::Request { id, method, params } => {
                put_text(&mut object, "id", id.as_str());
                put_text(&mut object, "type", "request");
                put_text(&mut object, "method", method.as_str());
                put(&mut object, "params", params.clone());
            },
            Frame::Response { id, ok, data, errors } => {
                put_text(&mut object, "id", id.as_str());
                put_text(&mut object, "type", "response");
                put(&mut object, "ok", JsonValue::Bool(*ok));
                if *ok {
                    let value = match data {
                        Some(data) => data.clone(),
                        None => JsonValue::Null,
                    };
                    put(&mut object, "data", value);
                } else {
                    put(&mut object, "errors", encode_diagnostics(errors));
                }
            },
            Frame::Error { id, errors } => {
                put_text(&mut object, "id", id.as_str());
                put_text(&mut object, "type", "error");
                put(&mut object, "errors", encode_diagnostics(errors));
            },
        }
        let value = JsonValue::Object(object);
        proof {
            json::lemma_model(value);
            assert(value@->Object_0 =~= encoded_fields(self@));
        }
        value
    }
}

// ---------------------------------------------------------------------------
// Reading and writing
// ---------------------------------------------------------------------------

/// Whether `parse` makes `value` of a JSON text.
pub open spec fn parses<P: FnOnce(&str) -> Option<JsonValue>>(
    parse: P,
    text: Seq<char>,
    value: Option<JsonValue>,
) -> bool {
    exists|asked: &str| asked@ == text && #[trigger] call_ensures(parse, (asked,), value)
}

/// Whether `write` makes `bytes` of a JSON value.
pub open spec fn writes<W: FnOnce(&JsonValue) -> Option<Vec<u8>>>(
    write: W,
    document: Json,
    bytes: Option<Vec<u8>>,
) -> bool {
    exists|value: &JsonValue| value@ == document && #[trigger] call_ensures(write, (value,), bytes)
}

/// The frame that a text describes, given what was parsed of it.
pub open spec fn frame_of(value: Option<JsonValue>) -> Result<FrameModel, FrameError> {
    match value {
        Some(value) => decoded_frame(value@),
        None => refused(FrameErrorKind::InvalidJson),
    }
}

/// The line that a frame is written as, given how it is written in JSON.
pub open spec fn line_of(bytes: Option<Vec<u8>>) -> Result<Seq<u8>, FrameError> {
    match bytes {
        Some(bytes) => if bytes@.len() > MAX_FRAME_BYTES {
            Err(FrameError { kind: FrameErrorKind::Oversize })
        } else {
            Ok(bytes@.push(10))
        },
        None => Err(FrameError { kind: FrameErrorKind::InvalidJson }),
    }
}

/// Reads the frame on `line`, the bytes that were read from a stream up to and
/// with its first newline; `parse` reads JSON.
pub fn read_frame<P: FnOnce(&str) -> Option<JsonValue>>(line: &[u8], parse: P) -> (result: Result<
    Option<Frame>,
    FrameError,
>)
    requires
        line_text(line@) matches Ok(Some(text)) ==> forall|asked: &str|
            asked@ == text ==> #[trigger] call_requires(parse, (asked,)),
    ensures
        match line_text(line@) {
            Err(error) => result == Err::<Option<Frame>, _>(error),
            Ok(None) => result == Ok::<Option<Frame>, FrameError>(None),
            Ok(Some(text)) => exists|value: Option<JsonValue>| #[trigger]
                parses(parse, text, value) && match result {
                    Ok(Some(frame)) => frame_of(value) == Ok::<_, FrameError>(frame@),
                    Ok(None) => false,
                    Err(error) => frame_of(value) == Err::<FrameModel, _>(error),
                },
        },
{
    let text = match read_frame_text(line) {
        Ok(Some(text)) => text,
        Ok(None) => {
            return Ok(None);
        },
        Err(error) => {
            return Err(error);
        },
    };
    let asked = text.as_str();
    let parsed = parse(asked);
    assert(call_ensures(parse, (asked,), parsed));
    assert(parses(parse, text@, parsed));
    let value = match &parsed {
        Some(value) => value,
        None => {
            return Err(FrameError::new(FrameErrorKind::InvalidJson));
        },
    };
    match decode(value) {
        Ok(frame) => Ok(Some(frame)),
        Err(error) => Err(error),
    }
}

/// The line that carries a frame; `write` writes JSON.
pub fn write_frame<W: FnOnce(&JsonValue) -> Option<Vec<u8>>>(frame: &Frame, write: W) -> (result:
    Result<Vec<u8>, FrameError>)
    requires
        forall|value: &JsonValue|
            value@ == encoded(frame@) ==> #[trigger] call_requires(write, (value,)),
    ensures
        exists|bytes: Option<Vec<u8>>| #[trigger]
            writes(write, encoded(frame@), bytes) && match result {
                Ok(line) => line_of(bytes) == Ok::<_, FrameError>(line@),
                Err(error) => line_of(bytes) == Err::<Seq<u8>, _>(error),
            },
{
    let value = frame.to_json();
    let written = write(&value);
    assert(call_ensures(write, (&value,), written));
    assert(writes(write, encoded(frame@), written));
    match written {
        Some(bytes) => write_frame_line(bytes),
        None => Err(FrameError::new(FrameErrorKind::InvalidJson)),
    }
}

} // verus!
