//! What travels between a controller and a worker: which lines carry a frame, which
//! documents are one, and how frames, machines and bytes are written.

use crate::digest;
use crate::digest::{push_little_endian, to_hex};
use crate::frame;
use crate::frame::{
    decode, read_frame_text, validate_controller_id, valid_diagnostics, write_frame_line,
    DiagnosticModel, Frame, FrameError, FrameErrorKind, FrameModel, RpcDiagnostic,
};
use crate::json;
use crate::json::{get, has_distinct_fields, Json, JsonValue};
use crate::machine_id;
use crate::machine_id::{is_machine_id, is_version_seven, machine_id_text, parse_machine_id};
use crate::secret;
use crate::secret::remote_value_contains_secret;
use crate::status_laws::flagged;
use vstd::prelude::*;
use vstd::utf8::{encode_utf8, valid_utf8};

verus! {

// ---------------------------------------------------------------------------
// Lines
// ---------------------------------------------------------------------------

/// A line carries the text of a frame exactly where it is at most 4 MiB of text and a
/// newline. Nothing at all is the end; without a newline it was cut off, or is too long
/// already.
pub proof fn lines_carry_frames(line: &[u8], result: Result<Option<String>, FrameError>)
    requires
        call_ensures(read_frame_text, (line,), result),
    ensures
        result matches Ok(None) <==> line@.len() == 0,
        result matches Ok(Some(_)) <==> line@.len() > 0 && line@.last() == 10 && line@.len()
            <= 4194305 && valid_utf8(line@.drop_last()),
        result matches Ok(Some(said)) ==> encode_utf8(said@) == line@.drop_last(),
        result matches Err(error) ==> error.kind == if line@.len() > 4194304 && !(line@.len()
            == 4194305 && line@.last() == 10) {
            FrameErrorKind::Oversize
        } else if line@.last() != 10 {
            FrameErrorKind::Truncated
        } else {
            FrameErrorKind::InvalidUtf8
        },
{
    if line@.len() > 0 && valid_utf8(line@.drop_last()) {
        vstd::utf8::decode_utf8_encode_utf8(line@.drop_last());
    }
}

/// A text is written as itself and a newline, unless it is over 4 MiB.
pub proof fn frames_are_written_on_a_line(text: Vec<u8>, result: Result<Vec<u8>, FrameError>)
    requires
        call_ensures(write_frame_line, (text,), result),
    ensures
        result is Ok <==> text@.len() <= 4194304,
        result matches Ok(line) ==> line@ == text@ + seq![10u8],
        result matches Err(error) ==> error.kind == FrameErrorKind::Oversize,
{
}

/// A line is read up to and with its newline, and never further than two bytes over
/// 4 MiB.
pub proof fn lines_are_read_to_their_newline(stream: Seq<u8>)
    ensures
        ({
            let line = frame::first_line(stream);
            &&& line.len() <= stream.len() && line == stream.take(line.len() as int)
            &&& line.len() <= 4194306
            &&& forall|i: int| 0 <= i < line.len() - 1 ==> line[i] != 10
            &&& line.len() < stream.len() && line.len() < 4194306 ==> line.len() > 0 && line.last()
                == 10
        }),
{
    lemma_line_within(stream, 4194306);
}

proof fn lemma_line_within(stream: Seq<u8>, limit: nat)
    ensures
        ({
            let line = frame::line_within(stream, limit);
            &&& line.len() <= stream.len() && line == stream.take(line.len() as int)
            &&& line.len() <= limit
            &&& forall|i: int| 0 <= i < line.len() - 1 ==> line[i] != 10
            &&& line.len() < stream.len() && line.len() < limit ==> line.len() > 0 && line.last()
                == 10
        }),
    decreases stream.len(),
{
    let line = frame::line_within(stream, limit);
    if stream.len() == 0 || limit == 0 {
        assert(line =~= stream.take(0));
    } else if stream[0] == 10 {
        assert(line =~= stream.take(1));
    } else {
        let rest = stream.drop_first();
        let tail = frame::line_within(rest, (limit - 1) as nat);
        lemma_line_within(rest, (limit - 1) as nat);
        assert(line == seq![stream[0]] + tail);
        assert forall|i: int| 0 <= i < line.len() implies line[i] == stream[i] by {
            if i > 0 {
                assert(line[i] == tail[i - 1]);
                assert(tail[i - 1] == rest.take(tail.len() as int)[i - 1]);
            }
        }
        assert(line =~= stream.take(line.len() as int));
        assert forall|i: int| 0 <= i < line.len() - 1 implies line[i] != 10 by {
            if i > 0 {
                assert(line[i] == tail[i - 1]);
            }
        }
        if tail.len() > 0 {
            assert(line.last() == tail.last());
        }
    }
}

// ---------------------------------------------------------------------------
// Documents
// ---------------------------------------------------------------------------

/// Whether an object has a field with a value.
pub open spec fn at(entries: Seq<(Seq<char>, Json)>, name: Seq<char>, value: Json) -> bool {
    exists|i: int|
        0 <= i < entries.len() && (#[trigger] entries[i]).0 == name && entries[i].1 == value
}

/// Whether an object has no field of a name.
pub open spec fn lacks(entries: Seq<(Seq<char>, Json)>, name: Seq<char>) -> bool {
    forall|i: int| 0 <= i < entries.len() ==> (#[trigger] entries[i]).0 != name
}

/// The field of an object is found exactly where it stands.
pub proof fn fields_are_found_where_they_stand(
    entries: Seq<(Seq<char>, Json)>,
    name: Seq<char>,
)
    requires
        json::distinct_names(entries),
    ensures
        json::field(entries, name) is None <==> lacks(entries, name),
        forall|value: Json| #[trigger]
            at(entries, name, value) <==> json::field(entries, name) == Some(value),
    decreases entries.len(),
{
    if entries.len() > 0 {
        let rest = entries.drop_first();
        assert forall|i: int| 0 <= i < rest.len() implies (#[trigger] rest[i]) == entries[i
            + 1] by {}
        assert forall|i: int, j: int| 0 <= i < j < rest.len() implies (#[trigger] rest[i]).0 != (
        #[trigger] rest[j]).0 by {
            assert(entries[i + 1].0 != entries[j + 1].0);
        }
        fields_are_found_where_they_stand(rest, name);
        if entries[0].0 == name {
            assert forall|value: Json| #[trigger] at(entries, name, value) <==> json::field(
                entries,
                name,
            ) == Some(value) by {
                if at(entries, name, value) {
                    let i = choose|i: int|
                        0 <= i < entries.len() && (#[trigger] entries[i]).0 == name
                            && entries[i].1 == value;
                    if i > 0 {
                        assert(entries[0].0 != entries[i].0);
                    }
                }
            }
        } else {
            if lacks(rest, name) {
                assert forall|i: int| 0 <= i < entries.len() implies (#[trigger] entries[i]).0
                    != name by {
                    if i > 0 {
                        assert(rest[i - 1].0 != name);
                    }
                }
            }
            if lacks(entries, name) {
                assert forall|i: int| 0 <= i < rest.len() implies (#[trigger] rest[i]).0
                    != name by {
                    assert(entries[i + 1].0 != name);
                }
            }
            assert forall|value: Json| #[trigger] at(entries, name, value) <==> json::field(
                entries,
                name,
            ) == Some(value) by {
                if at(entries, name, value) {
                    let i = choose|i: int|
                        0 <= i < entries.len() && (#[trigger] entries[i]).0 == name
                            && entries[i].1 == value;
                    assert(rest[i - 1] == entries[i]);
                    assert(at(rest, name, value));
                }
                if at(rest, name, value) {
                    let i = choose|i: int|
                        0 <= i < rest.len() && (#[trigger] rest[i]).0 == name && rest[i].1
                            == value;
                    assert(entries[i + 1] == rest[i]);
                }
            }
        }
    }
}

/// The first field of a name is looked up, and none only where there is none.
pub proof fn first_fields_are_looked_up(
    entries: &[(String, JsonValue)],
    name: &str,
    value: Option<&JsonValue>,
)
    requires
        call_ensures(get, (entries, name), value),
    ensures
        value is None <==> forall|i: int|
            0 <= i < entries@.len() ==> (#[trigger] entries@[i]).0@ != name@,
        value matches Some(value) ==> exists|i: int|
            0 <= i < entries@.len() && (#[trigger] entries@[i]).0@ == name@ && entries@[i].1@
                == value@ && forall|j: int| 0 <= j < i ==> (#[trigger] entries@[j]).0@ != name@,
{
    let model = json::entries_model(entries@);
    lemma_first_field(model, name@);
    assert forall|i: int| 0 <= i < model.len() implies (#[trigger] model[i]).0 == entries@[i].0@
        && model[i].1 == entries@[i].1@ by {}
    if let Some(value) = value {
        let i = choose|i: int| #[trigger] is_first(model, name@, i) && model[i].1 == value@;
        assert(entries@[i].0@ == name@ && entries@[i].1@ == value@);
        assert forall|j: int| 0 <= j < i implies (#[trigger] entries@[j]).0@ != name@ by {
            assert(model[j].0 != name@);
        }
    } else {
        assert forall|i: int| 0 <= i < entries@.len() implies (#[trigger] entries@[i]).0@
            != name@ by {
            assert(model[i].0 != name@);
        }
    }
}

/// Whether a field is the first of its name.
pub open spec fn is_first(entries: Seq<(Seq<char>, Json)>, name: Seq<char>, i: int) -> bool {
    &&& 0 <= i < entries.len()
    &&& entries[i].0 == name
    &&& forall|j: int| 0 <= j < i ==> (#[trigger] entries[j]).0 != name
}

proof fn lemma_first_field(entries: Seq<(Seq<char>, Json)>, name: Seq<char>)
    ensures
        json::field(entries, name) is None ==> lacks(entries, name),
        json::field(entries, name) matches Some(value) ==> exists|i: int| #[trigger]
            is_first(entries, name, i) && entries[i].1 == value,
    decreases entries.len(),
{
    if entries.len() > 0 {
        if entries[0].0 == name {
            assert(is_first(entries, name, 0));
        } else {
            let rest = entries.drop_first();
            lemma_first_field(rest, name);
            assert forall|i: int| 0 <= i < rest.len() implies (#[trigger] rest[i]) == entries[i
                + 1] by {}
            if let Some(value) = json::field(rest, name) {
                let i = choose|i: int| #[trigger]
                    is_first(rest, name, i) && rest[i].1 == value;
                assert forall|j: int| 0 <= j < i + 1 implies (#[trigger] entries[j]).0 != name by {
                    if j > 0 {
                        assert(rest[j - 1].0 != name);
                    }
                }
                assert(is_first(entries, name, i + 1));
            } else {
                assert forall|i: int| 0 <= i < entries.len() implies (#[trigger] entries[i]).0
                    != name by {
                    if i > 0 {
                        assert(rest[i - 1].0 != name);
                    }
                }
            }
        }
    }
}

/// A document names no field twice exactly where no object in it does: its own names
/// differ, and its parts name none twice.
pub proof fn names_differ_at_every_depth(value: &JsonValue, distinct: bool)
    requires
        call_ensures(has_distinct_fields, (value,), distinct),
    ensures
        value@ matches Json::Object(entries) ==> (distinct <==> (forall|i: int, j: int|
            0 <= i < entries.len() && 0 <= j < entries.len() && i != j ==> (
            #[trigger] entries[i]).0 != (#[trigger] entries[j]).0) && forall|i: int|
            0 <= i < entries.len() ==> json::distinct_fields((#[trigger] entries[i]).1)),
        value@ matches Json::Array(items) ==> (distinct <==> forall|i: int|
            0 <= i < items.len() ==> json::distinct_fields(#[trigger] items[i])),
        !(value@ is Object || value@ is Array) ==> distinct,
        distinct == json::distinct_fields(value@),
{
    if let Json::Object(entries) = value@ {
        if json::distinct_names(entries) {
            assert forall|i: int, j: int|
                0 <= i < entries.len() && 0 <= j < entries.len() && i != j implies (
            #[trigger] entries[i]).0 != (#[trigger] entries[j]).0 by {
                if i < j {
                    assert(entries[i].0 != entries[j].0);
                } else {
                    assert(entries[j].0 != entries[i].0);
                }
            }
        }
    }
}

/// A document holds what the detector flags exactly where a text in it is flagged, the
/// name of a field is, or a field's name and text are, written on one line.
pub proof fn secrets_are_found_wherever_they_stand<F: Fn(&str) -> bool>(
    value: &JsonValue,
    secret: &F,
    found: bool,
)
    requires
        call_ensures(remote_value_contains_secret::<F>, (value, secret), found),
    ensures
        found == secret::holds_secret(*secret, value@),
        value@ matches Json::Text(said) ==> (found <==> flagged(*secret, said)),
        value@ matches Json::Array(items) ==> (found <==> exists|i: int|
            0 <= i < items.len() && secret::holds_secret(*secret, #[trigger] items[i])),
        value@ matches Json::Object(entries) ==> (found <==> exists|i: int|
            0 <= i < entries.len() && (flagged(*secret, (#[trigger] entries[i]).0)
                || secret::holds_secret(*secret, entries[i].1) || (entries[i].1 matches Json::Text(
                said,
            ) && flagged(*secret, entries[i].0 + seq![':', ' '] + said)))),
        !(value@ is Text || value@ is Array || value@ is Object) ==> !found,
{
    reveal_strlit(": ");
    assert(": "@ =~= seq![':', ' ']);
    if let Json::Object(entries) = value@ {
        assert forall|i: int| 0 <= i < entries.len() implies secret::field_holds_secret(
            *secret,
            (#[trigger] entries[i]).0,
            entries[i].1,
        ) == (flagged(*secret, entries[i].0) || secret::holds_secret(*secret, entries[i].1) || (
        entries[i].1 matches Json::Text(said) && flagged(
            *secret,
            entries[i].0 + seq![':', ' '] + said,
        ))) by {
            if let Json::Text(said) = entries[i].1 {
                assert(secret::labelled(entries[i].0, said) == entries[i].0 + seq![':', ' ']
                    + said);
            }
        }
        if secret::holds_secret(*secret, value@) {
            let i = choose|i: int|
                0 <= i < entries.len() && secret::field_holds_secret(
                    *secret,
                    (#[trigger] entries[i]).0,
                    entries[i].1,
                );
            assert(entries[i] == entries[i]);
        }
    }
}

// ---------------------------------------------------------------------------
// Frames
// ---------------------------------------------------------------------------

/// Whether this is the identifier of a request: a `c` and digits, the first of which is
/// no zero.
pub open spec fn is_request_id(id: Seq<char>) -> bool {
    &&& id.len() > 1
    &&& id[0] == 'c'
    &&& '1' <= id[1] <= '9'
    &&& forall|i: int| 2 <= i < id.len() ==> '0' <= #[trigger] id[i] <= '9'
}

/// An identifier is accepted exactly where it is that of a request.
pub proof fn identifiers_are_numbered(id: &str, result: Result<(), FrameError>)
    requires
        call_ensures(validate_controller_id, (id,), result),
    ensures
        result is Ok <==> is_request_id(id@),
        result matches Err(error) ==> error.kind == FrameErrorKind::InvalidId,
{
    lemma_request_id(id@);
}

proof fn lemma_request_id(id: Seq<char>)
    ensures
        frame::controller_id(id) == is_request_id(id),
{
    if is_request_id(id) {
        assert forall|i: int| 1 <= i < id.len() implies '0' <= #[trigger] id[i] <= '9' by {}
    }
    if frame::controller_id(id) {
        assert('0' <= id[1] <= '9');
    }
}

/// Whether a text is there and no longer than `limit` bytes.
pub open spec fn fits(said: Seq<char>, limit: nat) -> bool {
    said.len() > 0 && encode_utf8(said).len() <= limit
}

/// Whether a diagnostic may stand in a frame.
pub open spec fn may_stand(error: DiagnosticModel) -> bool {
    &&& fits(error.code, 64)
    &&& fits(error.message, 1024)
    &&& error.details is Some ==> error.details->0 is Object
}

/// Whether a value spells a diagnostic: as an object with a code, a message and
/// perhaps an object of details, or as the list of these.
pub open spec fn spells_diagnostic(value: Json, error: DiagnosticModel) -> bool {
    match value {
        Json::Object(entries) => {
            &&& at(entries, "code"@, Json::Text(error.code))
            &&& at(entries, "message"@, Json::Text(error.message))
            &&& match error.details {
                Some(details) => details is Object && at(entries, "details"@, details),
                None => lacks(entries, "details"@),
            }
        },
        Json::Array(items) => match error.details {
            Some(details) => details is Object && items == seq![
                Json::Text(error.code),
                Json::Text(error.message),
                details,
            ],
            None => items == seq![Json::Text(error.code), Json::Text(error.message)],
        },
        _ => false,
    }
}

/// Whether a field spells diagnostics, all of which may stand in a frame, and at least
/// one.
pub open spec fn spells_diagnostics(
    entries: Seq<(Seq<char>, Json)>,
    errors: Seq<DiagnosticModel>,
) -> bool {
    &&& errors.len() > 0
    &&& exists|items: Seq<Json>|
        #[trigger] at(entries, "errors"@, Json::Array(items)) && items.len() == errors.len()
            && forall|i: int|
            0 <= i < items.len() ==> spells_diagnostic(#[trigger] items[i], errors[i])
                && may_stand(errors[i])
}

/// Whether none of the fields of a hello is there.
pub open spec fn lacks_hello(entries: Seq<(Seq<char>, Json)>) -> bool {
    &&& lacks(entries, "protocol_min"@)
    &&& lacks(entries, "protocol_max"@)
    &&& lacks(entries, "protocol"@)
    &&& lacks(entries, "styrn_version"@)
    &&& lacks(entries, "machine_id"@)
    &&& lacks(entries, "name"@)
    &&& lacks(entries, "manifest_schema_version"@)
}

/// Whether an object spells a frame. Fields that no frame has do not matter.
pub open spec fn spells_frame(entries: Seq<(Seq<char>, Json)>, sent: FrameModel) -> bool {
    match sent {
        FrameModel::ServerHello {
            protocol_min,
            protocol_max,
            styrn_version,
            machine_id,
            name,
            manifest_schema_version,
        } => {
            &&& at(entries, "type"@, Json::Text("hello"@))
            &&& at(entries, "id"@, Json::Text("hello"@))
            &&& 0 < protocol_min <= protocol_max
            &&& at(entries, "protocol_min"@, Json::Unsigned(protocol_min as u64))
            &&& at(entries, "protocol_max"@, Json::Unsigned(protocol_max as u64))
            &&& fits(styrn_version, 128)
            &&& at(entries, "styrn_version"@, Json::Text(styrn_version))
            &&& machine_id::names_machine(machine_id)
            &&& at(entries, "machine_id"@, Json::Text(machine_id::canonical_text(machine_id)))
            &&& fits(name, 255)
            &&& at(entries, "name"@, Json::Text(name))
            &&& at(entries, "manifest_schema_version"@, Json::Unsigned(manifest_schema_version))
            &&& lacks(entries, "protocol"@) && lacks(entries, "method"@) && lacks(
                entries,
                "params"@,
            )
            &&& lacks(entries, "ok"@) && lacks(entries, "data"@) && lacks(entries, "errors"@)
        },
        FrameModel::ClientHello { protocol, styrn_version } => {
            &&& at(entries, "type"@, Json::Text("hello"@))
            &&& at(entries, "id"@, Json::Text("hello"@))
            &&& protocol > 0
            &&& at(entries, "protocol"@, Json::Unsigned(protocol as u64))
            &&& fits(styrn_version, 128)
            &&& at(entries, "styrn_version"@, Json::Text(styrn_version))
            &&& lacks(entries, "protocol_min"@) && lacks(entries, "protocol_max"@)
            &&& lacks(entries, "machine_id"@) && lacks(entries, "name"@)
            &&& lacks(entries, "manifest_schema_version"@)
            &&& lacks(entries, "method"@) && lacks(entries, "params"@)
            &&& lacks(entries, "ok"@) && lacks(entries, "data"@) && lacks(entries, "errors"@)
        },
        FrameModel::Request { id, method, params } => {
            &&& at(entries, "type"@, Json::Text("request"@))
            &&& at(entries, "id"@, Json::Text(id))
            &&& is_request_id(id) && encode_utf8(id).len() <= 64
            &&& fits(method, 64)
            &&& at(entries, "method"@, Json::Text(method))
            &&& params is Object
            &&& at(entries, "params"@, params)
            &&& lacks_hello(entries)
            &&& lacks(entries, "ok"@) && lacks(entries, "data"@) && lacks(entries, "errors"@)
        },
        FrameModel::Response { id, ok, data, errors } => {
            &&& at(entries, "type"@, Json::Text("response"@))
            &&& at(entries, "id"@, Json::Text(id))
            &&& is_request_id(id) && encode_utf8(id).len() <= 64
            &&& at(entries, "ok"@, Json::Bool(ok))
            &&& lacks_hello(entries)
            &&& lacks(entries, "method"@) && lacks(entries, "params"@)
            &&& if ok {
                &&& errors.len() == 0
                &&& data is Some && !(data->0 is Null)
                &&& at(entries, "data"@, data->0)
                &&& lacks(entries, "errors"@)
            } else {
                &&& data is None
                &&& lacks(entries, "data"@)
                &&& spells_diagnostics(entries, errors)
            }
        },
        FrameModel::Error { id, errors } => {
            &&& at(entries, "type"@, Json::Text("error"@))
            &&& at(entries, "id"@, Json::Text(id))
            &&& id == "hello"@ || is_request_id(id) && encode_utf8(id).len() <= 64
            &&& lacks_hello(entries)
            &&& lacks(entries, "method"@) && lacks(entries, "params"@)
            &&& lacks(entries, "ok"@) && lacks(entries, "data"@)
            &&& spells_diagnostics(entries, errors)
        },
    }
}

proof fn lemma_all_fields(entries: Seq<(Seq<char>, Json)>)
    requires
        json::distinct_names(entries),
    ensures
        forall|name: Seq<char>|
            #![trigger lacks(entries, name)]
            lacks(entries, name) <==> json::field(entries, name) is None,
        forall|name: Seq<char>, value: Json| #[trigger]
            at(entries, name, value) <==> json::field(entries, name) == Some(value),
{
    assert forall|name: Seq<char>|
        #![trigger lacks(entries, name)]
        lacks(entries, name) <==> json::field(entries, name) is None by {
        fields_are_found_where_they_stand(entries, name);
    }
    assert forall|name: Seq<char>, value: Json| #[trigger]
        at(entries, name, value) <==> json::field(entries, name) == Some(value) by {
        fields_are_found_where_they_stand(entries, name);
    }
}

proof fn lemma_spells_diagnostic(value: Json, error: DiagnosticModel)
    requires
        json::distinct_fields(value),
    ensures
        spells_diagnostic(value, error) <==> frame::diagnostic(value) == Some(error),
{
    match value {
        Json::Object(entries) => {
            lemma_all_fields(entries);
            assert(lacks(entries, "details"@) <==> json::field(entries, "details"@) is None);
        },
        Json::Array(items) => {
            if items.len() == 2 {
                assert(items =~= seq![items[0], items[1]]);
            } else if items.len() == 3 {
                assert(items =~= seq![items[0], items[1], items[2]]);
            }
            let two = seq![Json::Text(error.code), Json::Text(error.message)];
            assert(two.len() == 2 && two[0] == Json::Text(error.code) && two[1] == Json::Text(
                error.message,
            ));
            if let Some(details) = error.details {
                let three = seq![Json::Text(error.code), Json::Text(error.message), details];
                assert(three.len() == 3 && three[0] == Json::Text(error.code) && three[1]
                    == Json::Text(error.message) && three[2] == details);
            }
        },
        _ => {},
    }
}

proof fn lemma_may_stand(error: DiagnosticModel)
    ensures
        frame::acceptable(error) == may_stand(error),
{
}

proof fn lemma_spells_diagnostics(
    entries: Seq<(Seq<char>, Json)>,
    errors: Seq<DiagnosticModel>,
)
    requires
        json::distinct_names(entries),
        forall|i: int| 0 <= i < entries.len() ==> json::distinct_fields((#[trigger] entries[i]).1),
    ensures
        spells_diagnostics(entries, errors) <==> frame::diagnostics_field(entries, "errors"@)
            == Ok::<_, ()>(Some(errors)) && errors.len() > 0 && frame::all_acceptable(errors),
{
    lemma_all_fields(entries);
    if spells_diagnostics(entries, errors) {
        let items = choose|items: Seq<Json>|
            #[trigger] at(entries, "errors"@, Json::Array(items)) && items.len() == errors.len()
                && forall|i: int|
                0 <= i < items.len() ==> spells_diagnostic(#[trigger] items[i], errors[i])
                    && may_stand(errors[i]);
        lemma_field_distinct(entries, "errors"@, Json::Array(items));
        assert forall|i: int| 0 <= i < items.len() implies frame::diagnostic(#[trigger] items[i])
            == Some(errors[i]) && frame::acceptable(errors[i]) by {
            lemma_spells_diagnostic(items[i], errors[i]);
        }
        assert(frame::diagnostics(items)->0 =~= errors);
        assert forall|i: int| 0 <= i < errors.len() implies frame::acceptable(
            #[trigger] errors[i],
        ) by {
            assert(frame::diagnostic(items[i]) == Some(errors[i]));
        }
    }
    if frame::diagnostics_field(entries, "errors"@) == Ok::<_, ()>(Some(errors)) && errors.len() > 0
        && frame::all_acceptable(errors) {
        let items = json::field(entries, "errors"@)->0->Array_0;
        lemma_field_distinct(entries, "errors"@, Json::Array(items));
        assert(at(entries, "errors"@, Json::Array(items)));
        assert forall|i: int| 0 <= i < items.len() implies spells_diagnostic(
            #[trigger] items[i],
            errors[i],
        ) && may_stand(errors[i]) by {
            assert(frame::diagnostic(items[i]) is Some);
            assert(errors[i] == frame::diagnostic(items[i])->0);
            lemma_spells_diagnostic(items[i], errors[i]);
            assert(frame::acceptable(errors[i]));
        }
    }
}

proof fn lemma_field_distinct(entries: Seq<(Seq<char>, Json)>, name: Seq<char>, value: Json)
    requires
        json::distinct_names(entries),
        forall|i: int| 0 <= i < entries.len() ==> json::distinct_fields((#[trigger] entries[i]).1),
        json::field(entries, name) == Some(value),
    ensures
        json::distinct_fields(value),
{
    fields_are_found_where_they_stand(entries, name);
    assert(at(entries, name, value));
}

proof fn lemma_kinds()
    ensures
        "hello"@ != "request"@,
        "hello"@ != "response"@,
        "hello"@ != "error"@,
        "request"@ != "response"@,
        "request"@ != "error"@,
        "response"@ != "error"@,
        encode_utf8("hello"@).len() == 5,
{
    reveal_strlit("hello");
    reveal_strlit("request");
    reveal_strlit("response");
    reveal_strlit("error");
    assert("hello"@.len() == 5 && "request"@.len() == 7 && "response"@.len() == 8);
    assert("error"@.len() == 5 && "hello"@[0] == 'h' && "error"@[0] == 'e');
    crate::frame_laws::lemma_ascii_len("hello"@);
}

proof fn lemma_machine(said: Seq<char>, id: u128)
    ensures
        machine_id::named_machine(said) == Some(id) <==> said == machine_id::canonical_text(id)
            && machine_id::names_machine(id),
{
    if said == machine_id::canonical_text(id) && machine_id::names_machine(id) {
        machine_id::machine_id_round_trip(id);
    }
    if machine_id::named_machine(said) == Some(id) {
        assert(machine_id::canonical_text(id) == said && machine_id::names_machine(id));
    }
}

proof fn lemma_hello(entries: Seq<(Seq<char>, Json)>, sent: FrameModel)
    requires
        json::distinct_fields(Json::Object(entries)),
        at(entries, "type"@, Json::Text("hello"@)),
        sent is ServerHello || sent is ClientHello,
    ensures
        spells_frame(entries, sent) <==> frame::decoded_frame(Json::Object(entries)) == Ok::<
            _,
            FrameError,
        >(sent),
{
    lemma_kinds();
    lemma_all_fields(entries);
    if let FrameModel::ServerHello { machine_id, .. } = sent {
        if let Some(Json::Text(said)) = json::field(entries, "machine_id"@) {
            lemma_machine(said, machine_id);
        }
    }
}

proof fn lemma_request(entries: Seq<(Seq<char>, Json)>, sent: FrameModel)
    requires
        json::distinct_fields(Json::Object(entries)),
        at(entries, "type"@, Json::Text("request"@)),
        sent is Request,
    ensures
        spells_frame(entries, sent) <==> frame::decoded_frame(Json::Object(entries)) == Ok::<
            _,
            FrameError,
        >(sent),
{
    lemma_kinds();
    lemma_all_fields(entries);
    lemma_request_id(sent->Request_id);
}

proof fn lemma_response(entries: Seq<(Seq<char>, Json)>, sent: FrameModel)
    requires
        json::distinct_fields(Json::Object(entries)),
        at(entries, "type"@, Json::Text("response"@)),
        sent is Response,
    ensures
        spells_frame(entries, sent) <==> frame::decoded_frame(Json::Object(entries)) == Ok::<
            _,
            FrameError,
        >(sent),
{
    lemma_kinds();
    lemma_all_fields(entries);
    lemma_request_id(sent->Response_id);
    lemma_spells_diagnostics(entries, sent->Response_errors);
    if sent->Response_errors.len() == 0 {
        assert(sent->Response_errors =~= seq![]);
    }
}

proof fn lemma_error(entries: Seq<(Seq<char>, Json)>, sent: FrameModel)
    requires
        json::distinct_fields(Json::Object(entries)),
        at(entries, "type"@, Json::Text("error"@)),
        sent is Error,
    ensures
        spells_frame(entries, sent) <==> frame::decoded_frame(Json::Object(entries)) == Ok::<
            _,
            FrameError,
        >(sent),
{
    lemma_kinds();
    lemma_all_fields(entries);
    lemma_request_id(sent->Error_id);
    lemma_spells_diagnostics(entries, sent->Error_errors);
}

/// A document is decoded to a frame exactly where it is an object that names no field
/// twice, at any depth, and spells that frame.
pub proof fn documents_are_decoded_as_they_spell(
    value: &JsonValue,
    result: Result<Frame, FrameError>,
    sent: FrameModel,
)
    requires
        call_ensures(decode, (value,), result),
    ensures
        (result matches Ok(received) && received@ == sent) <==> (value@ matches Json::Object(
            entries,
        ) && json::distinct_fields(value@) && spells_frame(entries, sent)),
{
    if let Json::Object(entries) = value@ {
        if json::distinct_fields(value@) {
            lemma_kinds();
            lemma_all_fields(entries);
            match sent {
                FrameModel::Request { .. } => {
                    if at(entries, "type"@, Json::Text("request"@)) {
                        lemma_request(entries, sent);
                    }
                },
                FrameModel::Response { .. } => {
                    if at(entries, "type"@, Json::Text("response"@)) {
                        lemma_response(entries, sent);
                    }
                },
                FrameModel::Error { .. } => {
                    if at(entries, "type"@, Json::Text("error"@)) {
                        lemma_error(entries, sent);
                    }
                },
                _ => {
                    if at(entries, "type"@, Json::Text("hello"@)) {
                        lemma_hello(entries, sent);
                    }
                },
            }
        }
    }
}

/// A document is of an unsupported type exactly where it is an object that names no field
/// twice and whose type is a text, but none of the four. Every other document that is no
/// frame is malformed, or has an identifier that it must not have.
pub proof fn unsupported_documents_have_another_type(
    value: &JsonValue,
    result: Result<Frame, FrameError>,
)
    requires
        call_ensures(decode, (value,), result),
    ensures
        (result matches Err(error) && error.kind == FrameErrorKind::UnsupportedType) <==> (
        value@ matches Json::Object(entries) && json::distinct_fields(value@) && exists|
            kind: Seq<char>,
        | #[trigger]
            at(entries, "type"@, Json::Text(kind)) && kind != "hello"@ && kind != "request"@ && kind
                != "response"@ && kind != "error"@),
        result matches Err(error) ==> error.kind == FrameErrorKind::UnsupportedType || error.kind
            == FrameErrorKind::InvalidJson || error.kind == FrameErrorKind::InvalidId,
        !(value@ is Object) || !json::distinct_fields(value@) ==> (result matches Err(error)
            && error.kind == FrameErrorKind::InvalidJson),
{
    if let Json::Object(entries) = value@ {
        if json::distinct_fields(value@) {
            fields_are_found_where_they_stand(entries, "type"@);
            if let Some(Json::Text(kind)) = json::field(entries, "type"@) {
                assert(at(entries, "type"@, Json::Text(kind)));
            }
        }
    }
}

/// What a frame is written as spells it, provided that it is one of the protocol, and
/// so is decoded to it again.
pub proof fn frames_are_written_as_they_are(
    sent: Frame,
    value: JsonValue,
    result: Result<Frame, FrameError>,
)
    requires
        call_ensures(Frame::to_json, (&sent,), value),
        call_ensures(decode, (&value,), result),
        crate::frame_laws::valid_frame(sent@),
    ensures
        value@ is Object,
        json::distinct_fields(value@),
        spells_frame(value@->Object_0, sent@),
        result matches Ok(received) && received@ == sent@,
{
    crate::frame_laws::encoded_frames_are_decoded(sent@);
    documents_are_decoded_as_they_spell(&value, result, sent@);
}

/// Diagnostics may stand in a frame exactly where each has a code of at most 64 bytes,
/// a message of at most a kibibyte and no details or an object of them.
pub proof fn diagnostics_are_bounded(errors: &[RpcDiagnostic], valid: bool)
    requires
        call_ensures(valid_diagnostics, (errors,), valid),
    ensures
        valid <==> forall|i: int| 0 <= i < errors@.len() ==> may_stand((#[trigger] errors@[i])@),
{
    let all = frame::all_diagnostics(errors@);
    assert forall|i: int| 0 <= i < errors@.len() implies (#[trigger] all[i]) == errors@[i]@ by {}
    if valid {
        assert forall|i: int| 0 <= i < errors@.len() implies may_stand(
            (#[trigger] errors@[i])@,
        ) by {
            assert(frame::acceptable(all[i]));
        }
    }
    if forall|i: int| 0 <= i < errors@.len() ==> may_stand((#[trigger] errors@[i])@) {
        assert forall|i: int| 0 <= i < all.len() implies frame::acceptable(#[trigger] all[i]) by {
            assert(may_stand(errors@[i]@));
        }
    }
}

// ---------------------------------------------------------------------------
// Machines and bytes
// ---------------------------------------------------------------------------

/// Machines are named by UUIDs of version seven and the usual variant, by the text that
/// is written of them and no other.
pub proof fn machines_have_one_name(
    said: &str,
    read: Option<u128>,
    id: u128,
    written: String,
    names: bool,
    seven: bool,
)
    requires
        call_ensures(parse_machine_id, (said,), read),
        call_ensures(machine_id_text, (id,), written),
        call_ensures(is_machine_id, (id,), names),
        call_ensures(is_version_seven, (id,), seven),
    ensures
        seven <==> (id >> 76u128) & 0xf == 7,
        names <==> seven && (id >> 62u128) & 3 == 2,
        read == Some(id) <==> said@ == written@ && names,
        written@.len() == 36,
        written@[8] == '-' && written@[13] == '-' && written@[18] == '-' && written@[23] == '-',
{
    lemma_machine(said@, id);
    lemma_hex_len(id as nat, 32);
}

proof fn lemma_hex_len(n: nat, count: nat)
    ensures
        machine_id::hex(n, count).len() == count,
    decreases count,
{
    if count > 0 {
        lemma_hex_len(n / 16, (count - 1) as nat);
    }
}

/// Each byte is written as two lower-case hexadecimal digits, in their order.
pub proof fn bytes_are_written_as_digits(bytes: &[u8], written: String, i: int)
    requires
        call_ensures(to_hex, (bytes,), written),
        0 <= i < bytes@.len(),
    ensures
        written@.len() == 2 * bytes@.len(),
        written@[2 * i] == lower_digit((bytes@[i] / 16) as nat),
        written@[2 * i + 1] == lower_digit((bytes@[i] % 16) as nat),
{
    lemma_hex_of(bytes@, i);
}

/// The lower-case hexadecimal digit worth a number.
pub open spec fn lower_digit(d: nat) -> char {
    seq![
        '0', '1', '2', '3', '4', '5', '6', '7', '8', '9', 'a', 'b', 'c', 'd', 'e', 'f',
    ][d as int]
}

proof fn lemma_hex_of(bytes: Seq<u8>, i: int)
    requires
        0 <= i < bytes.len(),
    ensures
        digest::hex_of(bytes).len() == 2 * bytes.len(),
        digest::hex_of(bytes)[2 * i] == lower_digit((bytes[i] / 16) as nat),
        digest::hex_of(bytes)[2 * i + 1] == lower_digit((bytes[i] % 16) as nat),
    decreases bytes.len(),
{
    let fewer = bytes.drop_last();
    let last = bytes.last();
    reveal_with_fuel(machine_id::hex, 3);
    let pair = machine_id::hex(last as nat, 2);
    assert(pair.len() == 2);
    assert(last as nat / 16 % 16 == last as nat / 16);
    assert(pair[0] == machine_id::hex_char(last as nat / 16));
    assert(pair[1] == machine_id::hex_char(last as nat % 16));
    lemma_digit(last as nat / 16);
    lemma_digit(last as nat % 16);
    if bytes.len() > 1 {
        lemma_hex_of(fewer, if i < fewer.len() {
            i
        } else {
            0
        });
    } else {
        assert(fewer.len() == 0);
        assert(digest::hex_of(fewer).len() == 0);
    }
    if i < fewer.len() {
        assert(fewer[i] == bytes[i]);
    }
}

proof fn lemma_digit(d: nat)
    requires
        d < 16,
    ensures
        machine_id::hex_char(d) == lower_digit(d),
{
}

/// A number is appended as its last bytes, the least significant first: each byte is the
/// remainder that the ones before it leave.
pub proof fn numbers_are_appended_from_their_end(bytes: &mut Vec<u8>, n: u64, count: usize)
    requires
        call_ensures(push_little_endian, (bytes, n, count), ()),
    ensures
        final(bytes)@.len() == old(bytes)@.len() + count,
        final(bytes)@.take(old(bytes)@.len() as int) == old(bytes)@,
        forall|i: int|
            0 <= i < count ==> #[trigger] final(bytes)@[old(bytes)@.len() + i] == byte_of(
                n as nat,
                i as nat,
            ),
{
    digest::lemma_little_endian_len(n as nat, count as nat);
    assert forall|i: int| 0 <= i < count implies #[trigger] final(bytes)@[old(bytes)@.len() + i]
        == byte_of(n as nat, i as nat) by {
        lemma_byte_of(n as nat, count as nat, i as nat);
    }
    assert(final(bytes)@.take(old(bytes)@.len() as int) =~= old(bytes)@);
}

/// Byte number `i` of a number: what is left of it when it is divided by 256 so often.
pub open spec fn byte_of(n: nat, i: nat) -> int
    decreases i,
{
    if i == 0 {
        n as int % 256
    } else {
        byte_of(n / 256, (i - 1) as nat)
    }
}

proof fn lemma_byte_of(n: nat, count: nat, i: nat)
    requires
        i < count,
    ensures
        digest::little_endian(n, count).len() == count,
        digest::little_endian(n, count)[i as int] == byte_of(n, i),
    decreases count,
{
    digest::lemma_little_endian_len(n, count);
    digest::lemma_little_endian_len(n / 256, (count - 1) as nat);
    if i > 0 {
        lemma_byte_of(n / 256, (count - 1) as nat, (i - 1) as nat);
    }
}

} // verus!
