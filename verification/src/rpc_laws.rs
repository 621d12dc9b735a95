//! What holds of a session as a whole: a controller and a worker that keep to
//! the protocol understand each other.

use crate::frame;
use crate::frame::{FrameError, FrameModel};
use crate::frame_laws;
use crate::json;
use crate::json::Json;
use crate::number;
use crate::rpc;
use crate::rpc::{
    ErrorCode, ErrorCodeNames, RpcError, MAX_EXEC_CAPTURE_BYTES, PROTOCOL_MAX, PROTOCOL_MIN,
};
use crate::rpc_client;
use crate::rpc_client::RpcClient;
use crate::rpc_payload;
use crate::rpc_payload::ExecResult;
use crate::rpc_server;
use crate::rpc_server::{Call, Ending, ProtocolFault, ServerSession};
use crate::text;
use vstd::prelude::*;

verus! {

proof fn lemma_decimal_digits(n: nat)
    ensures
        forall|i: int| 0 <= i < number::decimal(n).len() ==> '0' <= #[trigger] number::decimal(n)[i]
            <= '9',
    decreases n,
{
    if n >= 10 {
        let head = number::decimal(n / 10);
        lemma_decimal_digits(n / 10);
        assert forall|i: int| 0 <= i < number::decimal(n).len() implies '0'
            <= #[trigger] number::decimal(n)[i] <= '9' by {
            if i < head.len() {
                assert(number::decimal(n)[i] == head[i]);
            }
        }
    }
}

/// Ten to the power of `count`.
spec fn span(count: nat) -> nat
    decreases count,
{
    if count == 0 {
        1
    } else {
        10 * span((count - 1) as nat)
    }
}

proof fn lemma_decimal_len(n: nat, count: nat)
    requires
        n < span(count),
        count > 0,
    ensures
        number::decimal(n).len() <= count,
    decreases count,
{
    if n >= 10 {
        assert(count > 1) by {
            if count == 1 {
                reveal_with_fuel(span, 2);
            }
        }
        lemma_decimal_len(n / 10, (count - 1) as nat);
    }
}

/// The identifiers of requests are ones that a frame may have.
pub proof fn request_ids_are_sound(n: u64)
    requires
        n > 0,
    ensures
        frame_laws::sound_id(rpc_client::request_id(n as nat)),
{
    reveal_strlit("c");
    let id = rpc_client::request_id(n as nat);
    let digits = number::decimal(n as nat);
    number::lemma_decimal_value(n as nat);
    lemma_decimal_digits(n as nat);
    assert(span(20) == 100000000000000000000nat) by {
        reveal_with_fuel(span, 21);
    }
    lemma_decimal_len(n as nat, 20);
    assert forall|i: int| 1 <= i < id.len() implies '0' <= #[trigger] id[i] <= '9' by {
        assert(id[i] == digits[i - 1]);
    }
    assert(id[1] == digits[0]);
    assert forall|i: int| 0 <= i < id.len() implies (#[trigger] id[i]) as u32 <= 0x7f by {
        if i > 0 {
            assert('0' <= id[i] <= '9');
        }
    }
    frame_laws::lemma_ascii_len(id);
}

/// Different requests of one session have different identifiers.
pub proof fn request_ids_are_distinct(a: nat, b: nat)
    requires
        rpc_client::request_id(a) == rpc_client::request_id(b),
    ensures
        a == b,
{
    let left = rpc_client::request_id(a);
    let right = rpc_client::request_id(b);
    let n = "c"@.len() as int;
    assert(left.skip(n) =~= number::decimal(a));
    assert(right.skip(n) =~= number::decimal(b));
    number::decimal_is_injective(a, b);
}

/// A worker accepts the greeting of a controller that accepted its hello.
pub proof fn greetings_are_accepted(
    hello_schema: u64,
    chosen: u32,
    styrn_version: Seq<char>,
    names: ErrorCodeNames,
    result: Result<ServerSession, Ending>,
)
    requires
        rpc::negotiated(PROTOCOL_MIN, PROTOCOL_MAX, hello_schema, Ok(chosen)),
        rpc_server::selected(
            Ok(Some(FrameModel::ClientHello { protocol: chosen, styrn_version })),
            names,
            result,
        ),
    ensures
        result == Ok::<_, Ending>(ServerSession { next_id: 1 }),
{
}

/// A worker that is told that it cannot be spoken with ends its session in
/// peace.
pub proof fn rejections_end_in_peace(
    hello: crate::frame::ServerHello,
    names: ErrorCodeNames,
    result: Result<ServerSession, Ending>,
)
    requires
        rpc_server::selected(Ok(Some(rpc_client::rejection(hello, names))), names, result),
    ensures
        result matches Err(ending) && rpc_server::ends_silently(ending, Ok(())),
{
}

/// A worker accepts a controller's requests in the order in which they are
/// made: where both are at the same number, the request is accepted as it was
/// made, and both are at the next number.
pub proof fn requests_are_accepted_in_order(
    client: RpcClient,
    server: ServerSession,
    method: Seq<char>,
    params: Json,
    names: ErrorCodeNames,
    result: Result<Call, Ending>,
)
    requires
        !client.terminated,
        client.next_id < u64::MAX,
        client.next_id == server.next_id,
        rpc_server::due(
            server.next_id,
            Ok(Some(rpc_client::request_frame(client, method, params)->Ok_0)),
            names,
            result,
        ),
    ensures
        result matches Ok(call) && call.id@ == rpc_client::request_id(client.next_id as nat)
            && call.method@ == method && call.params@ == params,
{
}

/// Whatever a worker answers to a request is the answer that the controller
/// takes it for: the data, a failure of the worker, or the end of the session.
pub proof fn answers_are_understood(id: Seq<char>, data: Json, names: ErrorCodeNames)
    requires
        names.protocol_malformed@ != names.protocol_incompatible@,
    ensures
        rpc_client::request_outcome(
            id,
            Ok(Some(rpc_server::success_response(id, data))),
            names,
        ) == (Ok::<_, RpcError>(data), false),
        rpc_client::request_outcome(id, Ok(Some(rpc_server::failure_response(id, names))), names)
            == (
            Err::<Json, _>(
                RpcError {
                    code: ErrorCode::RemoteExecutionFailed,
                    message: rpc::REMOTE_EXECUTION_FAILED_MESSAGE,
                },
            ),
            false,
        ),
        rpc_client::request_outcome(
            id,
            Ok(Some(rpc_server::fault_frame(id, ProtocolFault::Malformed, names))),
            names,
        ) == (
            Err::<Json, _>(
                RpcError {
                    code: ErrorCode::ProtocolMalformed,
                    message: "the worker rejected the RPC session",
                },
            ),
            true,
        ),
{
}

/// Data that is sent in response to a request arrives as it was sent.
pub proof fn data_survives_the_wire(n: u64, data: Json, names: ErrorCodeNames)
    requires
        n > 0,
        data !is Null,
        json::distinct_fields(data),
    ensures
        frame::decoded_frame(
            frame::encoded(rpc_server::success_response(rpc_client::request_id(n as nat), data)),
        ) == Ok::<_, FrameError>(
            rpc_server::success_response(rpc_client::request_id(n as nat), data),
        ),
{
    request_ids_are_sound(n);
    frame_laws::encoded_frames_are_decoded(
        rpc_server::success_response(rpc_client::request_id(n as nat), data),
    );
}

/// A request arrives as it was made.
pub proof fn requests_survive_the_wire(client: RpcClient, method: Seq<char>, params: Json)
    requires
        !client.terminated,
        0 < client.next_id < u64::MAX,
        frame::bounded(Some(method), frame::MAX_METHOD_BYTES),
        params is Object,
        json::distinct_fields(params),
    ensures
        frame::decoded_frame(
            frame::encoded(rpc_client::request_frame(client, method, params)->Ok_0),
        ) == Ok::<_, FrameError>(rpc_client::request_frame(client, method, params)->Ok_0),
{
    request_ids_are_sound(client.next_id);
    frame_laws::encoded_frames_are_decoded(
        rpc_client::request_frame(client, method, params)->Ok_0,
    );
}

/// What a controller asks is what a worker reads: a command that a controller
/// may send is read as that command.
pub proof fn commands_are_read_as_sent(argv: Seq<String>)
    ensures
        rpc_server::only_param(rpc_client::exec_params(argv), "argv"@) matches Some(
            Json::Array(items),
        ) && rpc_server::all_texts(items) && rpc_server::texts_of(items)
            == text::string_views(argv),
{
    let entries = rpc_client::exec_params(argv)->Object_0;
    json::lemma_field_at(entries, 0);
    let items = entries[0].1->Array_0;
    assert(rpc_server::texts_of(items) =~= text::string_views(argv));
}

/// A key that a controller may send is read as that key.
pub proof fn keys_are_read_as_sent(key: Seq<char>)
    ensures
        rpc_server::only_param(
            rpc_client::doctor_params(key),
            "authorized_public_key"@,
        ) == Some(Json::Text(key)),
{
    json::lemma_field_at(rpc_client::doctor_params(key)->Object_0, 0);
}

/// A controller shows output as the worker sent it, so long as it is within the
/// limit: what the worker left readable stays so, and what it redacted is
/// redacted.
pub proof fn sent_output_is_shown_as_sent<F: Fn(&str) -> bool>(
    secret: F,
    stdout: Seq<char>,
    stderr: Seq<char>,
    sent: ExecResult,
    shown: Result<ExecResult, RpcError>,
)
    requires
        (sent.stdout@, sent.stdout_redacted) == rpc_server::sent(secret, stdout),
        (sent.stderr@, sent.stderr_redacted) == rpc_server::sent(secret, stderr),
        text::byte_len(sent.stdout@) <= MAX_EXEC_CAPTURE_BYTES,
        text::byte_len(sent.stderr@) <= MAX_EXEC_CAPTURE_BYTES,
        rpc_payload::sanitized(secret, sent, shown),
    ensures
        ({
            &&& shown matches Ok(result)
            &&& result.stdout@ == sent.stdout@ && result.stdout_redacted == sent.stdout_redacted
            &&& result.stderr@ == sent.stderr@ && result.stderr_redacted == sent.stderr_redacted
            &&& result.exit_code == sent.exit_code
            &&& result.duration_ms == sent.duration_ms
        }),
{
}

} // verus!
