//! What holds of every frame: what was encoded is decoded again, and what was
//! decoded is a valid frame.

use crate::frame;
use crate::frame::{DiagnosticModel, FrameError, FrameModel};
use crate::frame::{MAX_ID_BYTES, MAX_METHOD_BYTES, MAX_NAME_BYTES, MAX_VERSION_BYTES};
use crate::json;
use crate::json::{Json, JsonValue};
use crate::machine_id;
use crate::text;
use vstd::prelude::*;

verus! {

/// Diagnostics that may stand in a frame, whose details name no field twice.
pub open spec fn sound_diagnostics(errors: Seq<DiagnosticModel>) -> bool {
    &&& errors.len() > 0
    &&& frame::all_acceptable(errors)
    &&& forall|i: int|
        0 <= i < errors.len() ==> ((#[trigger] errors[i]).details matches Some(details)
            ==> json::distinct_fields(details))
}

/// The identifier of a request, short enough to be accepted.
pub open spec fn sound_id(id: Seq<char>) -> bool {
    frame::controller_id(id) && text::byte_len(id) <= MAX_ID_BYTES
}

/// The frames of the protocol.
pub open spec fn valid_frame(frame: FrameModel) -> bool {
    match frame {
        FrameModel::ServerHello {
            protocol_min,
            protocol_max,
            styrn_version,
            machine_id,
            name,
            manifest_schema_version,
        } => {
            &&& 0 < protocol_min <= protocol_max
            &&& frame::bounded(Some(styrn_version), MAX_VERSION_BYTES)
            &&& machine_id::names_machine(machine_id)
            &&& frame::bounded(Some(name), MAX_NAME_BYTES)
        },
        FrameModel::ClientHello { protocol, styrn_version } => {
            &&& protocol > 0
            &&& frame::bounded(Some(styrn_version), MAX_VERSION_BYTES)
        },
        FrameModel::Request { id, method, params } => {
            &&& sound_id(id)
            &&& frame::bounded(Some(method), MAX_METHOD_BYTES)
            &&& params is Object
            &&& json::distinct_fields(params)
        },
        FrameModel::Response { id, ok, data, errors } => {
            &&& sound_id(id)
            &&& if ok {
                &&& errors.len() == 0
                &&& data matches Some(data)
                &&& data !is Null
                &&& json::distinct_fields(data)
            } else {
                data is None && sound_diagnostics(errors)
            }
        },
        FrameModel::Error { id, errors } => {
            &&& sound_id(id) || id == "hello"@
            &&& sound_diagnostics(errors)
        },
    }
}

/// The names of fields and of frame types, told apart by their lengths and, for
/// those of one length, by one character.
proof fn lemma_names()
    ensures
        "id"@.len() == 2,
        "ok"@.len() == 2,
        "id"@[0] == 'i',
        "ok"@[0] == 'o',
        "type"@.len() == 4,
        "name"@.len() == 4,
        "data"@.len() == 4,
        "code"@.len() == 4,
        "type"@[0] == 't',
        "name"@[0] == 'n',
        "data"@[0] == 'd',
        "code"@[0] == 'c',
        "method"@.len() == 6,
        "params"@.len() == 6,
        "errors"@.len() == 6,
        "method"@[0] == 'm',
        "params"@[0] == 'p',
        "errors"@[0] == 'e',
        "message"@.len() == 7,
        "details"@.len() == 7,
        "message"@[0] == 'm',
        "details"@[0] == 'd',
        "protocol"@.len() == 8,
        "machine_id"@.len() == 10,
        "protocol_min"@.len() == 12,
        "protocol_max"@.len() == 12,
        "protocol_min"@[11] == 'n',
        "protocol_max"@[11] == 'x',
        "styrn_version"@.len() == 13,
        "manifest_schema_version"@.len() == 23,
        "hello"@.len() == 5,
        "error"@.len() == 5,
        "hello"@[0] == 'h',
        "error"@[0] == 'e',
        "request"@.len() == 7,
        "response"@.len() == 8,
{
    reveal_strlit("id");
    reveal_strlit("ok");
    reveal_strlit("type");
    reveal_strlit("name");
    reveal_strlit("data");
    reveal_strlit("code");
    reveal_strlit("method");
    reveal_strlit("params");
    reveal_strlit("errors");
    reveal_strlit("message");
    reveal_strlit("details");
    reveal_strlit("protocol");
    reveal_strlit("machine_id");
    reveal_strlit("protocol_min");
    reveal_strlit("protocol_max");
    reveal_strlit("styrn_version");
    reveal_strlit("manifest_schema_version");
    reveal_strlit("hello");
    reveal_strlit("error");
    reveal_strlit("request");
    reveal_strlit("response");
}

proof fn lemma_diagnostic(error: DiagnosticModel)
    requires
        frame::acceptable(error),
        error.details matches Some(details) ==> json::distinct_fields(details),
    ensures
        json::distinct_fields(frame::encoded_diagnostic(error)),
        frame::diagnostic(frame::encoded_diagnostic(error)) == Some(error),
{
    lemma_names();
    let value = frame::encoded_diagnostic(error);
    let entries = value->Object_0;
    assert(json::distinct_names(entries));
    assert forall|i: int| 0 <= i < entries.len() implies json::distinct_fields(
        (#[trigger] entries[i]).1,
    ) by {
        assert(i == 0 || i == 1 || i == 2);
    }
    json::lemma_field_at(entries, 0);
    json::lemma_field_at(entries, 1);
    if error.details is Some {
        json::lemma_field_at(entries, 2);
    } else {
        json::lemma_no_field(entries, "details"@);
    }
}

proof fn lemma_diagnostics(errors: Seq<DiagnosticModel>)
    requires
        sound_diagnostics(errors),
    ensures
        json::distinct_fields(frame::encoded_diagnostics(errors)),
        frame::diagnostics(frame::encoded_diagnostics(errors)->Array_0) == Some(errors),
{
    let items = frame::encoded_diagnostics(errors)->Array_0;
    assert forall|i: int| 0 <= i < items.len() implies json::distinct_fields(#[trigger] items[i])
        && frame::diagnostic(items[i]) == Some(errors[i]) by {
        assert(items[i] == frame::encoded_diagnostic(errors[i]));
        assert(frame::acceptable(errors[i]));
        lemma_diagnostic(errors[i]);
    }
    assert(frame::diagnostics(items)->0 =~= errors);
}

/// Every name that a frame may have, that this list of fields has not.
spec fn lacks(entries: Seq<(Seq<char>, Json)>, name: Seq<char>) -> bool {
    forall|i: int| 0 <= i < entries.len() ==> (#[trigger] entries[i]).0 != name
}

proof fn lemma_lacks(entries: Seq<(Seq<char>, Json)>, name: Seq<char>)
    requires
        lacks(entries, name),
    ensures
        json::field(entries, name) is None,
{
    json::lemma_no_field(entries, name);
}

proof fn lemma_hello_text()
    ensures
        text::byte_len("hello"@) <= MAX_ID_BYTES,
{
    reveal_strlit("hello");
    lemma_ascii_len("hello"@);
}

/// A text of ASCII characters has as many bytes as characters.
pub proof fn lemma_ascii_len(value: Seq<char>)
    requires
        forall|i: int| 0 <= i < value.len() ==> (#[trigger] value[i]) as u32 <= 0x7f,
    ensures
        text::byte_len(value) == value.len(),
    decreases value.len(),
{
    reveal_with_fuel(vstd::utf8::encode_utf8, 2);
    if value.len() > 0 {
        lemma_ascii_len(value.drop_first());
    }
}

proof fn lemma_server_hello(sent: FrameModel)
    requires
        valid_frame(sent),
        sent is ServerHello,
    ensures
        frame::decoded_frame(frame::encoded(sent)) == Ok::<_, FrameError>(sent),
{
    lemma_names();
    lemma_hello_text();
    let entries = frame::encoded_fields(sent);
    assert(json::distinct_names(entries));
    assert forall|i: int| 0 <= i < entries.len() implies json::distinct_fields(
        (#[trigger] entries[i]).1,
    ) by {
        assert(0 <= i <= 7);
    }
    assert(json::distinct_fields(frame::encoded(sent)));
    json::lemma_field_at(entries, 0);
    json::lemma_field_at(entries, 1);
    json::lemma_field_at(entries, 2);
    json::lemma_field_at(entries, 3);
    json::lemma_field_at(entries, 4);
    json::lemma_field_at(entries, 5);
    json::lemma_field_at(entries, 6);
    json::lemma_field_at(entries, 7);
    lemma_lacks(entries, "protocol"@);
    lemma_lacks(entries, "method"@);
    lemma_lacks(entries, "params"@);
    lemma_lacks(entries, "ok"@);
    lemma_lacks(entries, "data"@);
    lemma_lacks(entries, "errors"@);
    machine_id::machine_id_round_trip(sent->machine_id);
}

proof fn lemma_client_hello(sent: FrameModel)
    requires
        valid_frame(sent),
        sent is ClientHello,
    ensures
        frame::decoded_frame(frame::encoded(sent)) == Ok::<_, FrameError>(sent),
{
    lemma_names();
    lemma_hello_text();
    let entries = frame::encoded_fields(sent);
    assert(json::distinct_names(entries));
    assert forall|i: int| 0 <= i < entries.len() implies json::distinct_fields(
        (#[trigger] entries[i]).1,
    ) by {
        assert(0 <= i <= 7);
    }
    assert(json::distinct_fields(frame::encoded(sent)));
    json::lemma_field_at(entries, 0);
    json::lemma_field_at(entries, 1);
    json::lemma_field_at(entries, 2);
    json::lemma_field_at(entries, 3);
    lemma_lacks(entries, "protocol_min"@);
    lemma_lacks(entries, "protocol_max"@);
    lemma_lacks(entries, "machine_id"@);
    lemma_lacks(entries, "name"@);
    lemma_lacks(entries, "manifest_schema_version"@);
    lemma_lacks(entries, "method"@);
    lemma_lacks(entries, "params"@);
    lemma_lacks(entries, "ok"@);
    lemma_lacks(entries, "data"@);
    lemma_lacks(entries, "errors"@);
}

proof fn lemma_no_hello_fields(entries: Seq<(Seq<char>, Json)>)
    requires
        lacks(entries, "protocol_min"@),
        lacks(entries, "protocol_max"@),
        lacks(entries, "protocol"@),
        lacks(entries, "styrn_version"@),
        lacks(entries, "machine_id"@),
        lacks(entries, "name"@),
        lacks(entries, "manifest_schema_version"@),
    ensures
        json::field(entries, "protocol_min"@) is None,
        json::field(entries, "protocol_max"@) is None,
        json::field(entries, "protocol"@) is None,
        json::field(entries, "styrn_version"@) is None,
        json::field(entries, "machine_id"@) is None,
        json::field(entries, "name"@) is None,
        json::field(entries, "manifest_schema_version"@) is None,
{
    lemma_lacks(entries, "protocol_min"@);
    lemma_lacks(entries, "protocol_max"@);
    lemma_lacks(entries, "protocol"@);
    lemma_lacks(entries, "styrn_version"@);
    lemma_lacks(entries, "machine_id"@);
    lemma_lacks(entries, "name"@);
    lemma_lacks(entries, "manifest_schema_version"@);
}

proof fn lemma_request(sent: FrameModel)
    requires
        valid_frame(sent),
        sent is Request,
    ensures
        frame::decoded_frame(frame::encoded(sent)) == Ok::<_, FrameError>(sent),
{
    lemma_names();
    let entries = frame::encoded_fields(sent);
    assert(json::distinct_names(entries));
    assert forall|i: int| 0 <= i < entries.len() implies json::distinct_fields(
        (#[trigger] entries[i]).1,
    ) by {
        assert(0 <= i <= 7);
    }
    assert(json::distinct_fields(frame::encoded(sent)));
    json::lemma_field_at(entries, 0);
    json::lemma_field_at(entries, 1);
    json::lemma_field_at(entries, 2);
    json::lemma_field_at(entries, 3);
    lemma_no_hello_fields(entries);
    lemma_lacks(entries, "ok"@);
    lemma_lacks(entries, "data"@);
    lemma_lacks(entries, "errors"@);
}

proof fn lemma_response(sent: FrameModel)
    requires
        valid_frame(sent),
        sent is Response,
    ensures
        frame::decoded_frame(frame::encoded(sent)) == Ok::<_, FrameError>(sent),
{
    lemma_names();
    let entries = frame::encoded_fields(sent);
    if !sent->ok {
        lemma_diagnostics(sent->Response_errors);
    }
    assert(json::distinct_names(entries));
    assert forall|i: int| 0 <= i < entries.len() implies json::distinct_fields(
        (#[trigger] entries[i]).1,
    ) by {
        assert(0 <= i <= 7);
    }
    assert(json::distinct_fields(frame::encoded(sent)));
    json::lemma_field_at(entries, 0);
    json::lemma_field_at(entries, 1);
    json::lemma_field_at(entries, 2);
    json::lemma_field_at(entries, 3);
    lemma_no_hello_fields(entries);
    lemma_lacks(entries, "method"@);
    lemma_lacks(entries, "params"@);
    if sent->ok {
        lemma_lacks(entries, "errors"@);
        assert(sent->Response_errors =~= seq![]);
    } else {
        lemma_lacks(entries, "data"@);
    }
}

proof fn lemma_error(sent: FrameModel)
    requires
        valid_frame(sent),
        sent is Error,
    ensures
        frame::decoded_frame(frame::encoded(sent)) == Ok::<_, FrameError>(sent),
{
    lemma_names();
    lemma_hello_text();
    let entries = frame::encoded_fields(sent);
    lemma_diagnostics(sent->Error_errors);
    assert(json::distinct_names(entries));
    assert forall|i: int| 0 <= i < entries.len() implies json::distinct_fields(
        (#[trigger] entries[i]).1,
    ) by {
        assert(0 <= i <= 7);
    }
    assert(json::distinct_fields(frame::encoded(sent)));
    json::lemma_field_at(entries, 0);
    json::lemma_field_at(entries, 1);
    json::lemma_field_at(entries, 2);
    lemma_no_hello_fields(entries);
    lemma_lacks(entries, "method"@);
    lemma_lacks(entries, "params"@);
    lemma_lacks(entries, "ok"@);
    lemma_lacks(entries, "data"@);
}

/// Decoding what a frame was encoded to gives the frame.
pub proof fn encoded_frames_are_decoded(sent: FrameModel)
    requires
        valid_frame(sent),
    ensures
        frame::decoded_frame(frame::encoded(sent)) == Ok::<_, FrameError>(sent),
{
    match sent {
        FrameModel::ServerHello { .. } => lemma_server_hello(sent),
        FrameModel::ClientHello { .. } => lemma_client_hello(sent),
        FrameModel::Request { .. } => lemma_request(sent),
        FrameModel::Response { .. } => lemma_response(sent),
        FrameModel::Error { .. } => lemma_error(sent),
    }
}

/// Whether a document is read back as it was written: on one line, in UTF-8, and
/// as the same document.
pub open spec fn survives_text<P, W>(parse: P, write: W, document: Json) -> bool where
    P: FnOnce(&str) -> Option<JsonValue>,
    W: FnOnce(&JsonValue) -> Option<Vec<u8>>,
 {
    forall|bytes: Vec<u8>| #[trigger]
        frame::writes(write, document, Some(bytes)) ==> {
            &&& forall|i: int| 0 <= i < bytes@.len() ==> bytes@[i] != 10
            &&& text::decoded(bytes@) matches Some(text) && forall|value: Option<JsonValue>|
                #[trigger]
                frame::parses(parse, text, value) ==> (value matches Some(value) && value@
                    == document)
        }
}

/// A frame that was written is read back as it was, whatever follows it in the
/// stream, and what follows it is left; where nothing follows, the stream is at
/// its end. This is so wherever JSON text reads back as what it was written
/// from.
pub proof fn written_frames_are_read_back<P, W>(
    parse: P,
    write: W,
    sent: FrameModel,
    bytes: Vec<u8>,
    rest: Seq<u8>,
) where P: FnOnce(&str) -> Option<JsonValue>, W: FnOnce(&JsonValue) -> Option<Vec<u8>>
    requires
        valid_frame(sent),
        survives_text(parse, write, frame::encoded(sent)),
        frame::writes(write, frame::encoded(sent), Some(bytes)),
        frame::line_of(Some(bytes)) is Ok,
    ensures
        ({
            let stream = frame::line_of(Some(bytes))->Ok_0 + rest;
            let line = frame::first_line(stream);
            &&& frame::line_text(line) matches Ok(Some(text)) && forall|
                value: Option<JsonValue>,
            | #[trigger]
                frame::parses(parse, text, value) ==> frame::frame_of(value) == Ok::<_, FrameError>(
                    sent,
                )
            &&& stream.skip(line.len() as int) == rest
        }),
        frame::line_text(frame::first_line(seq![])) == Ok::<Option<Seq<char>>, FrameError>(None),
{
    let stream = bytes@.push(10) + rest;
    frame::written_lines_are_read_back(bytes@, rest);
    encoded_frames_are_decoded(sent);
    assert(stream.skip(bytes@.len() as int + 1) =~= rest);
}

proof fn lemma_field_distinct(entries: Seq<(Seq<char>, Json)>, name: Seq<char>)
    requires
        forall|i: int| 0 <= i < entries.len() ==> json::distinct_fields((#[trigger] entries[i]).1),
    ensures
        json::field(entries, name) matches Some(value) ==> json::distinct_fields(value),
    decreases entries.len(),
{
    if entries.len() > 0 && entries[0].0 != name {
        let rest = entries.drop_first();
        assert forall|i: int| 0 <= i < rest.len() implies json::distinct_fields(
            (#[trigger] rest[i]).1,
        ) by {
            assert(rest[i] == entries[i + 1]);
        }
        lemma_field_distinct(rest, name);
    }
}

proof fn lemma_read_diagnostic(value: Json)
    requires
        json::distinct_fields(value),
    ensures
        frame::diagnostic(value) matches Some(error) ==> (error.details matches Some(details)
            ==> json::distinct_fields(details)),
{
    match value {
        Json::Object(entries) => {
            lemma_field_distinct(entries, "details"@);
        },
        Json::Array(items) => {
            if items.len() == 3 {
                assert(json::distinct_fields(items[2]));
            }
        },
        _ => {},
    }
}

proof fn lemma_read_diagnostics(entries: Seq<(Seq<char>, Json)>)
    requires
        json::distinct_fields(Json::Object(entries)),
    ensures
        frame::diagnostics_field(entries, "errors"@) matches Ok(Some(errors)) ==> (forall|i: int|
            0 <= i < errors.len() ==> ((#[trigger] errors[i]).details matches Some(details)
                ==> json::distinct_fields(details))),
{
    lemma_field_distinct(entries, "errors"@);
    if let Some(Json::Array(items)) = json::field(entries, "errors"@) {
        assert forall|i: int| 0 <= i < items.len() implies (frame::diagnostic(
            #[trigger] items[i],
        ) matches Some(error) ==> (error.details matches Some(details) ==> json::distinct_fields(
            details,
        ))) by {
            assert(json::distinct_fields(items[i]));
            lemma_read_diagnostic(items[i]);
        }
    }
}

/// Whatever is decoded is a frame of the protocol.
pub proof fn decoded_frames_are_valid(value: Json)
    ensures
        frame::decoded_frame(value) matches Ok(received) ==> valid_frame(received),
{
    if let Json::Object(entries) = value {
        if json::distinct_fields(value) {
            lemma_field_distinct(entries, "params"@);
            lemma_field_distinct(entries, "data"@);
            lemma_read_diagnostics(entries);
            let raw = frame::raw_frame(entries);
            if let Some(text) = raw.machine_id {
                if machine_id::named_machine(text) is Some {
                    let id = machine_id::named_machine(text)->0;
                    assert(machine_id::names_machine(id));
                }
            }
        }
    }
}

} // verus!
