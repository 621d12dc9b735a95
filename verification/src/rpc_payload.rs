//! What travels in requests and responses, and which of it is accepted.

use crate::json::JsonValue;
use crate::number;
use crate::number::numbered;
use crate::resources;
use crate::rpc;
use crate::rpc::{ErrorCode, RpcError};
use crate::rpc::{
    MAX_EXEC_ARGUMENTS, MAX_EXEC_ARGUMENT_BYTES, MAX_EXEC_CAPTURE_BYTES, MAX_EXEC_TOTAL_BYTES,
    MAX_PUBLIC_KEY_BYTES, REDACTED_OUTPUT,
};
use crate::scan;
use crate::secret;
use crate::secret::{ask, remote_value_contains_secret};
use crate::ssh_key;
use crate::ssh_key::parse_authorized_key_line;
use crate::text;
use crate::text::{chars_of, contains_control, len_in_bytes, same_text};
use vstd::prelude::*;

verus! {

// ---------------------------------------------------------------------------
// Public keys
// ---------------------------------------------------------------------------

/// A controller's public key without its comment.
pub open spec fn canonical_key(value: Seq<char>) -> Option<Seq<char>> {
    if text::byte_len(value) > MAX_PUBLIC_KEY_BYTES {
        None
    } else {
        match ssh_key::authorized_key(value) {
            Some((key_type, encoded)) => Some(key_type + " "@ + encoded),
            None => None,
        }
    }
}

/// The refusal of a public key.
pub open spec fn public_key_refusal() -> RpcError {
    RpcError {
        code: ErrorCode::UsageInvalidArgument,
        message: "the controller public key is invalid",
    }
}

fn invalid_public_key() -> (error: RpcError)
    ensures
        error == public_key_refusal(),
{
    RpcError::new(ErrorCode::UsageInvalidArgument, "the controller public key is invalid")
}

/// Takes the comment off a controller's public key.
pub fn canonical_authorized_public_key(value: &str) -> (result: Result<String, RpcError>)
    ensures
        match result {
            Ok(key) => canonical_key(value@) == Some(key@),
            Err(error) => canonical_key(value@) is None && error == public_key_refusal(),
        },
{
    if len_in_bytes(value) > MAX_PUBLIC_KEY_BYTES {
        return Err(invalid_public_key());
    }
    match parse_authorized_key_line(value) {
        Some(key) => Ok(key.key_type.to_owned().concat(" ").concat(key.encoded)),
        None => Err(invalid_public_key()),
    }
}

proof fn lemma_byte_len_concat(left: Seq<char>, right: Seq<char>)
    ensures
        text::byte_len(left + right) == text::byte_len(left) + text::byte_len(right),
    decreases left.len(),
{
    if left.len() == 0 {
        assert(left + right =~= right);
    } else {
        assert((left + right).drop_first() =~= left.drop_first() + right);
        lemma_byte_len_concat(left.drop_first(), right);
    }
}

proof fn lemma_space_len(value: Seq<char>)
    requires
        value.len() > 0,
        text::is_ascii_space(value[0]),
    ensures
        text::byte_len(value) == 1 + text::byte_len(value.drop_first()),
{
    let first = value.take(1);
    assert(value =~= first + value.drop_first());
    lemma_byte_len_concat(first, value.drop_first());
    lemma_single(first);
}

proof fn lemma_single(one: Seq<char>)
    requires
        one.len() == 1,
        one[0] as u32 <= 0x7f,
    ensures
        text::byte_len(one) == 1,
{
    reveal_with_fuel(vstd::utf8::encode_utf8, 2);
    assert(one.drop_first().len() == 0);
}

/// The first field begins where the first character stands that is no space,
/// and the second behind a space.
proof fn lemma_fields(value: Seq<char>)
    ensures
        forall|i: int, k: int|
            0 <= i < scan::fields(value).len() && 0 <= k < scan::fields(value)[i].len()
                ==> !text::is_ascii_space(#[trigger] scan::fields(value)[i][k]),
        forall|i: int|
            0 <= i < scan::fields(value).len() ==> (#[trigger] scan::fields(value)[i]).len() > 0,
        scan::fields(value).len() >= 1 ==> text::byte_len(scan::fields(value)[0])
            <= text::byte_len(value),
        scan::fields(value).len() >= 2 ==> text::byte_len(scan::fields(value)[0]) + 1
            + text::byte_len(scan::fields(value)[1]) <= text::byte_len(value),
    decreases value.len(),
{
    if value.len() == 0 {
    } else if text::is_ascii_space(value[0]) {
        lemma_fields(value.drop_first());
        lemma_space_len(value);
    } else {
        lemma_word(value);
        let n = scan::word_len(value) as int;
        let rest = value.skip(n);
        lemma_fields(rest);
        assert(value =~= value.take(n) + rest);
        lemma_byte_len_concat(value.take(n), rest);
        let all = scan::fields(value);
        let tail = scan::fields(rest);
        assert(all == seq![value.take(n)] + tail);
        assert forall|i: int, k: int| 0 <= i < all.len() && 0 <= k < all[i].len() implies
            !text::is_ascii_space(#[trigger] all[i][k]) by {
            if i > 0 {
                assert(all[i] == tail[i - 1]);
                assert(!text::is_ascii_space(tail[i - 1][k]));
            } else {
                assert(all[0][k] == value[k]);
            }
        }
        assert forall|i: int| 0 <= i < all.len() implies (#[trigger] all[i]).len() > 0 by {
            if i > 0 {
                assert(all[i] == tail[i - 1]);
            }
        }
        if all.len() >= 2 {
            assert(all[1] == tail[0]);
            assert(rest.len() > 0);
            lemma_space_len(rest);
            lemma_fields(rest.drop_first());
            assert(tail == scan::fields(rest.drop_first()));
        }
    }
}

proof fn lemma_word(value: Seq<char>)
    requires
        value.len() > 0,
        !text::is_ascii_space(value[0]),
    ensures
        0 < scan::word_len(value) <= value.len(),
        forall|i: int|
            0 <= i < scan::word_len(value) ==> !text::is_ascii_space(#[trigger] value[i]),
        scan::word_len(value) < value.len() ==> text::is_ascii_space(
            value[scan::word_len(value) as int],
        ),
    decreases value.len(),
{
    let rest = value.drop_first();
    if rest.len() > 0 && !text::is_ascii_space(rest[0]) {
        lemma_word(rest);
        assert forall|i: int| 0 <= i < scan::word_len(value) implies !text::is_ascii_space(
            #[trigger] value[i],
        ) by {
            if i > 0 {
                assert(value[i] == rest[i - 1]);
            }
        }
    } else {
        assert(scan::word_len(rest) == 0);
    }
}

/// A key without its comment stays as it is.
pub proof fn canonical_keys_are_fixed(value: Seq<char>)
    ensures
        canonical_key(value) matches Some(key) ==> canonical_key(key) == Some(key),
{
    if let Some(key) = canonical_key(value) {
        reveal_strlit(" ");
        lemma_fields(value);
        let key_type = scan::fields(value)[0];
        let encoded = scan::fields(value)[1];
        let space = " "@;
        assert(key =~= key_type + space + encoded);
        assert(space.len() == 1 && space[0] == ' ');
        lemma_single(space);
        lemma_byte_len_concat(key_type + space, encoded);
        lemma_byte_len_concat(key_type, space);
        let n = key_type.len() as int;
        assert forall|i: int| 0 <= i < n implies !text::is_ascii_space(#[trigger] key[i]) by {
            assert(key[i] == scan::fields(value)[0][i]);
        }
        scan::lemma_word_len_is(key, n);
        assert(key.take(n) =~= key_type);
        let rest = key.skip(n);
        assert(rest.drop_first() =~= encoded);
        assert(scan::fields(rest) == scan::fields(encoded));
        let m = encoded.len() as int;
        assert forall|i: int| 0 <= i < m implies !text::is_ascii_space(#[trigger] encoded[i]) by {
            assert(encoded[i] == scan::fields(value)[1][i]);
        }
        scan::lemma_word_len_is(encoded, m);
        assert(encoded.take(m) =~= encoded);
        assert(scan::fields(encoded.skip(m)) =~= seq![]);
        assert(encoded.len() > 0 && !text::is_ascii_space(encoded[0]));
        assert(scan::fields(encoded) =~= seq![encoded]);
        assert(key_type.len() > 0);
        assert(scan::fields(key) =~= seq![key_type, encoded]);
    }
}

// ---------------------------------------------------------------------------
// Values from a worker
// ---------------------------------------------------------------------------

/// Accepts a value from a worker that holds nothing shaped like a secret.
pub fn validate_remote_value<F: Fn(&str) -> bool>(value: &JsonValue, secret: &F) -> (result: Result<
    (),
    RpcError,
>)
    requires
        secret::detector(*secret),
    ensures
        result == (if secret::holds_secret(*secret, value@) {
            Err::<(), RpcError>(rpc::malformed("the worker response contained secret-shaped text"))
        } else {
            Ok(())
        }),
{
    if remote_value_contains_secret(value, secret) {
        Err(RpcError::malformed("the worker response contained secret-shaped text"))
    } else {
        Ok(())
    }
}

// ---------------------------------------------------------------------------
// Commands
// ---------------------------------------------------------------------------

/// The bytes of the first `n` arguments.
pub open spec fn argument_bytes(argv: Seq<String>, n: nat) -> nat
    decreases n,
{
    if n == 0 || n > argv.len() {
        0
    } else {
        argument_bytes(argv, (n - 1) as nat) + text::byte_len(argv[n - 1]@)
    }
}

/// The commands that a worker runs: few and short arguments, a program, and
/// nothing shaped like a secret.
pub open spec fn acceptable_argv<F: Fn(&str) -> bool>(secret: F, argv: Seq<String>) -> bool {
    &&& 0 < argv.len() <= MAX_EXEC_ARGUMENTS
    &&& argv[0]@.len() > 0
    &&& forall|i: int|
        #![trigger argv[i]]
        0 <= i < argv.len() ==> text::byte_len(argv[i]@) <= MAX_EXEC_ARGUMENT_BYTES
            && !secret::detects(secret, argv[i]@)
    &&& argument_bytes(argv, argv.len()) <= MAX_EXEC_TOTAL_BYTES
}

/// The refusal of a command.
pub open spec fn argv_refusal() -> RpcError {
    RpcError {
        code: ErrorCode::UsageInvalidArgument,
        message: "the exec argv vector is invalid or contains secret-shaped input",
    }
}

fn invalid_argv() -> (error: RpcError)
    ensures
        error == argv_refusal(),
{
    RpcError::new(
        ErrorCode::UsageInvalidArgument,
        "the exec argv vector is invalid or contains secret-shaped input",
    )
}

proof fn lemma_argument_bytes(argv: Seq<String>, n: nat, m: nat)
    requires
        n <= m <= argv.len(),
    ensures
        argument_bytes(argv, n) <= argument_bytes(argv, m),
    decreases m,
{
    if n < m {
        lemma_argument_bytes(argv, n, (m - 1) as nat);
    }
}

/// Accepts a command that a worker may be asked to run.
pub fn validate_exec_argv<F: Fn(&str) -> bool>(argv: &[String], secret: &F) -> (result: Result<
    (),
    RpcError,
>)
    requires
        secret::detector(*secret),
    ensures
        result == (if acceptable_argv(*secret, argv@) {
            Ok::<(), RpcError>(())
        } else {
            Err(argv_refusal())
        }),
{
    if argv.len() == 0 || argv.len() > MAX_EXEC_ARGUMENTS {
        return Err(invalid_argv());
    }
    let program = chars_of(argv[0].as_str());
    if program.len() == 0 {
        return Err(invalid_argv());
    }
    let mut total: usize = 0;
    for i in 0..argv.len()
        invariant
            secret::detector(*secret),
            total == argument_bytes(argv@, i as nat),
            total <= MAX_EXEC_TOTAL_BYTES,
            forall|k: int|
                #![trigger argv@[k]]
                0 <= k < i ==> text::byte_len(argv@[k]@) <= MAX_EXEC_ARGUMENT_BYTES
                    && !secret::detects(*secret, argv@[k]@),
    {
        let argument = argv[i].as_str();
        assert(argument@ == argv@[i as int]@);
        let length: usize = len_in_bytes(argument);
        if length > MAX_EXEC_ARGUMENT_BYTES || ask(secret, argument) {
            return Err(invalid_argv());
        }
        total = match total.checked_add(length) {
            Some(sum) => sum,
            None => {
                return Err(invalid_argv());
            },
        };
        if total > MAX_EXEC_TOTAL_BYTES {
            proof {
                lemma_argument_bytes(argv@, (i + 1) as nat, argv@.len());
            }
            return Err(invalid_argv());
        }
    }
    Ok(())
}

/// What came of a command.
#[derive(Clone, Debug)]
pub struct ExecResult {
    pub exit_code: i32,
    pub stdout: String,
    pub stderr: String,
    pub duration_ms: u64,
    pub stdout_lossy: bool,
    pub stderr_lossy: bool,
    pub stdout_redacted: bool,
    pub stderr_redacted: bool,
}

/// Output as a controller shows it: redacted where the worker did so or where
/// it is shaped like a secret.
pub open spec fn shown<F: Fn(&str) -> bool>(secret: F, capture: Seq<char>, redacted: bool) -> (
    Seq<char>,
    bool,
) {
    if redacted || secret::detects(secret, capture) {
        (REDACTED_OUTPUT@, true)
    } else {
        (capture, false)
    }
}

/// Redacts output that is marked or shaped like a secret.
pub fn sanitize_remote_capture<F: Fn(&str) -> bool>(
    capture: &mut String,
    redacted: &mut bool,
    secret: &F,
)
    requires
        secret::detector(*secret),
    ensures
        (final(capture)@, *final(redacted)) == shown(*secret, old(capture)@, *old(redacted)),
{
    if *redacted || ask(secret, capture.as_str()) {
        *capture = REDACTED_OUTPUT.to_owned();
        *redacted = true;
    }
}

/// What a controller shows of a result, unless output is over the limit.
pub open spec fn sanitized<F: Fn(&str) -> bool>(
    secret: F,
    received: ExecResult,
    result: Result<ExecResult, RpcError>,
) -> bool {
    let within = text::byte_len(received.stdout@) <= MAX_EXEC_CAPTURE_BYTES && text::byte_len(
        received.stderr@,
    ) <= MAX_EXEC_CAPTURE_BYTES;
    match result {
        Ok(clean) => {
            &&& within
            &&& (clean.stdout@, clean.stdout_redacted) == shown(
                secret,
                received.stdout@,
                received.stdout_redacted,
            )
            &&& (clean.stderr@, clean.stderr_redacted) == shown(
                secret,
                received.stderr@,
                received.stderr_redacted,
            )
            &&& clean.exit_code == received.exit_code
            &&& clean.duration_ms == received.duration_ms
            &&& clean.stdout_lossy == received.stdout_lossy
            &&& clean.stderr_lossy == received.stderr_lossy
        },
        Err(error) => !within && error == rpc::malformed(
            "the worker exec response exceeded its capture limit",
        ),
    }
}

impl ExecResult {
    /// What a controller shows of the result; output over the limit is refused.
    pub fn sanitize_for_client<F: Fn(&str) -> bool>(self, secret: &F) -> (result: Result<
        Self,
        RpcError,
    >)
        requires
            secret::detector(*secret),
        ensures
            sanitized(*secret, self, result),
    {
        if len_in_bytes(self.stdout.as_str()) > MAX_EXEC_CAPTURE_BYTES || len_in_bytes(
            self.stderr.as_str(),
        ) > MAX_EXEC_CAPTURE_BYTES {
            return Err(RpcError::malformed("the worker exec response exceeded its capture limit"));
        }
        let mut stdout = self.stdout;
        let mut stdout_redacted = self.stdout_redacted;
        let mut stderr = self.stderr;
        let mut stderr_redacted = self.stderr_redacted;
        sanitize_remote_capture(&mut stdout, &mut stdout_redacted, secret);
        sanitize_remote_capture(&mut stderr, &mut stderr_redacted, secret);
        Ok(
            ExecResult {
                exit_code: self.exit_code,
                stdout,
                stderr,
                duration_ms: self.duration_ms,
                stdout_lossy: self.stdout_lossy,
                stderr_lossy: self.stderr_lossy,
                stdout_redacted,
                stderr_redacted,
            },
        )
    }
}

/// Nothing shaped like a secret is shown, as long as the mark of a redaction is
/// not itself shaped like one.
pub proof fn shown_output_holds_no_secret<F: Fn(&str) -> bool>(
    secret: F,
    capture: Seq<char>,
    redacted: bool,
)
    requires
        !secret::detects(secret, REDACTED_OUTPUT@),
    ensures
        !secret::detects(secret, shown(secret, capture, redacted).0),
        shown(secret, shown(secret, capture, redacted).0, shown(secret, capture, redacted).1)
            == shown(secret, capture, redacted),
{
}

// ---------------------------------------------------------------------------
// Findings
// ---------------------------------------------------------------------------

/// What a check found.
#[derive(Clone, Copy, Debug, PartialEq, Eq, Structural)]
pub enum WorkerDoctorFindingState {
    Pass,
    Fail,
    Unknown,
}

/// How much a finding matters.
#[derive(Clone, Copy, Debug, PartialEq, Eq, Structural)]
pub enum WorkerDoctorSeverity {
    Info,
    Warning,
    Error,
}

/// What to do about a finding.
#[derive(Clone, Debug)]
pub struct WorkerDoctorRemediation {
    pub summary: String,
    pub styrn_args: Option<Vec<String>>,
}

/// One finding of a worker's check of itself.
#[derive(Clone, Debug)]
pub struct WorkerDoctorFinding {
    pub id: String,
    pub state: WorkerDoctorFindingState,
    pub severity: WorkerDoctorSeverity,
    pub message: String,
    pub remediation: Option<WorkerDoctorRemediation>,
}

/// A worker's check of itself.
#[derive(Clone, Debug)]
pub struct WorkerDoctorReport {
    pub findings: Vec<WorkerDoctorFinding>,
    pub coverage: String,
    pub complete: bool,
}

/// How much a pending action of a manifest matters.
#[derive(Clone, Copy, Debug, PartialEq, Eq, Structural)]
pub enum PendingSeverity {
    Info,
    Warning,
    Error,
}

impl WorkerDoctorFinding {
    /// The finding for the pending action at `index` of a manifest.
    pub fn from_pending_action(index: usize, severity: PendingSeverity) -> (finding: Self)
        requires
            index < usize::MAX,
        ensures
            finding.id@ == "pending.action-"@ + number::decimal((index + 1) as nat),
            finding.state == WorkerDoctorFindingState::Fail,
            finding.severity == (match severity {
                PendingSeverity::Info => WorkerDoctorSeverity::Info,
                PendingSeverity::Warning => WorkerDoctorSeverity::Warning,
                PendingSeverity::Error => WorkerDoctorSeverity::Error,
            }),
            finding.message@ == "a worker manifest pending action remains unresolved"@,
            finding.remediation matches Some(remediation) && remediation.summary@
                == "complete the corresponding pending action in the worker manifest, then rerun styrn host doctor"@
                && remediation.styrn_args is None,
    {
        let severity = match severity {
            PendingSeverity::Info => WorkerDoctorSeverity::Info,
            PendingSeverity::Warning => WorkerDoctorSeverity::Warning,
            PendingSeverity::Error => WorkerDoctorSeverity::Error,
        };
        WorkerDoctorFinding {
            id: numbered("pending.action-", (index + 1) as u64),
            state: WorkerDoctorFindingState::Fail,
            severity,
            message: "a worker manifest pending action remains unresolved".to_owned(),
            remediation: Some(
                WorkerDoctorRemediation {
                    summary:
                        "complete the corresponding pending action in the worker manifest, then rerun styrn host doctor".to_owned(),
                    styrn_args: None,
                },
            ),
        }
    }
}

/// The only command that a remediation may name.
pub open spec fn is_init_command(arguments: Seq<String>) -> bool {
    arguments.len() == 2 && arguments[0]@ == "machine"@ && arguments[1]@ == "init"@
}

/// A text for people: not empty, short, without control characters and not
/// shaped like a secret.
pub open spec fn readable<F: Fn(&str) -> bool>(secret: F, value: Seq<char>) -> bool {
    resources::presentable(secret, value, 1024)
}

fn is_readable<F: Fn(&str) -> bool>(value: &str, secret: &F) -> (holds: bool)
    requires
        secret::detector(*secret),
    ensures
        holds == readable(*secret, value@),
{
    let chars = chars_of(value);
    chars.len() > 0 && len_in_bytes(value) <= 1024 && !contains_control(&chars) && !ask(
        secret,
        value,
    )
}

/// A finding that a controller accepts, apart from its identifier being the
/// only one of its kind.
pub open spec fn acceptable_finding<F: Fn(&str) -> bool, P: Fn(&str) -> bool>(
    secret: F,
    probe_id: P,
    finding: WorkerDoctorFinding,
) -> bool {
    &&& secret::detects(probe_id, finding.id@)
    &&& readable(secret, finding.message@)
    &&& finding.remediation matches Some(remediation) ==> {
        &&& readable(secret, remediation.summary@)
        &&& remediation.styrn_args matches Some(arguments) ==> is_init_command(arguments@)
    }
}

/// The findings that a controller accepts: one to sixty-four acceptable ones of
/// different identifiers.
pub open spec fn acceptable_findings<F: Fn(&str) -> bool, P: Fn(&str) -> bool>(
    secret: F,
    probe_id: P,
    findings: Seq<WorkerDoctorFinding>,
) -> bool {
    &&& 0 < findings.len() <= 64
    &&& forall|i: int|
        0 <= i < findings.len() ==> acceptable_finding(secret, probe_id, #[trigger] findings[i])
    &&& forall|i: int, j: int|
        0 <= i < j < findings.len() ==> (#[trigger] findings[i]).id@ != (
        #[trigger] findings[j]).id@
}

/// The reports that a controller accepts: of the minimum coverage, incomplete,
/// with findings that it accepts.
pub open spec fn acceptable_report<F: Fn(&str) -> bool, P: Fn(&str) -> bool>(
    secret: F,
    probe_id: P,
    report: WorkerDoctorReport,
) -> bool {
    &&& report.coverage@ == "phase1_minimum"@
    &&& !report.complete
    &&& acceptable_findings(secret, probe_id, report.findings@)
}

fn is_acceptable_finding<F: Fn(&str) -> bool, P: Fn(&str) -> bool>(
    finding: &WorkerDoctorFinding,
    secret: &F,
    probe_id: &P,
) -> (holds: bool)
    requires
        secret::detector(*secret),
        secret::detector(*probe_id),
    ensures
        holds == acceptable_finding(*secret, *probe_id, *finding),
{
    if !ask(probe_id, finding.id.as_str()) || !is_readable(finding.message.as_str(), secret) {
        return false;
    }
    match &finding.remediation {
        Some(remediation) => {
            if !is_readable(remediation.summary.as_str(), secret) {
                return false;
            }
            match &remediation.styrn_args {
                Some(arguments) => arguments.len() == 2 && same_text(
                    arguments[0].as_str(),
                    "machine",
                ) && same_text(arguments[1].as_str(), "init"),
                None => true,
            }
        },
        None => true,
    }
}

impl WorkerDoctorReport {
    /// Accepts a report. `probe_id` tells which identifiers name a probe.
    pub fn validate_for_client<F: Fn(&str) -> bool, P: Fn(&str) -> bool>(
        &self,
        secret: &F,
        probe_id: &P,
    ) -> (result: Result<(), RpcError>)
        requires
            secret::detector(*secret),
            secret::detector(*probe_id),
        ensures
            result == (if acceptable_report(*secret, *probe_id, *self) {
                Ok::<(), RpcError>(())
            } else {
                Err(rpc::malformed("the worker doctor response was invalid"))
            }),
    {
        if !same_text(self.coverage.as_str(), "phase1_minimum") || self.complete
            || self.findings.len() == 0 || self.findings.len() > 64 {
            return Err(RpcError::malformed("the worker doctor response was invalid"));
        }
        for i in 0..self.findings.len()
            invariant
                secret::detector(*secret),
                secret::detector(*probe_id),
                forall|k: int|
                    0 <= k < i ==> acceptable_finding(
                        *secret,
                        *probe_id,
                        #[trigger] self.findings@[k],
                    ),
                forall|k: int, j: int|
                    0 <= k < j < i ==> (#[trigger] self.findings@[k]).id@ != (
                    #[trigger] self.findings@[j]).id@,
        {
            let finding = &self.findings[i];
            if !is_acceptable_finding(finding, secret, probe_id) {
                return Err(RpcError::malformed("the worker doctor response was invalid"));
            }
            for k in 0..i
                invariant
                    i < self.findings@.len(),
                    *finding == self.findings@[i as int],
                    forall|j: int| 0 <= j < k ==> (#[trigger] self.findings@[j]).id@ != finding.id@,
            {
                if same_text(self.findings[k].id.as_str(), finding.id.as_str()) {
                    assert(self.findings@[k as int].id@ == self.findings@[i as int].id@);
                    return Err(RpcError::malformed("the worker doctor response was invalid"));
                }
            }
        }
        Ok(())
    }

    /// Accepts the report that was read from a worker's value; `parsed` is what
    /// reading it by type gave.
    pub fn from_remote_value<F: Fn(&str) -> bool, P: Fn(&str) -> bool>(
        value: &JsonValue,
        parsed: Option<WorkerDoctorReport>,
        secret: &F,
        probe_id: &P,
    ) -> (result: Result<Self, RpcError>)
        requires
            secret::detector(*secret),
            secret::detector(*probe_id),
        ensures
            match result {
                Ok(report) => {
                    &&& !secret::holds_secret(*secret, value@)
                    &&& parsed == Some(report)
                    &&& acceptable_report(*secret, *probe_id, report)
                },
                Err(error) => if secret::holds_secret(*secret, value@) {
                    error == rpc::malformed("the worker response contained secret-shaped text")
                } else {
                    match parsed {
                        None => error == rpc::malformed("the worker doctor response was malformed"),
                        Some(report) => !acceptable_report(*secret, *probe_id, report) && error
                            == rpc::malformed("the worker doctor response was invalid"),
                    }
                },
            },
    {
        match validate_remote_value(value, secret) {
            Ok(()) => {},
            Err(error) => {
                return Err(error);
            },
        }
        let report = match parsed {
            Some(report) => report,
            None => {
                return Err(RpcError::malformed("the worker doctor response was malformed"));
            },
        };
        match report.validate_for_client(secret, probe_id) {
            Ok(()) => Ok(report),
            Err(error) => Err(error),
        }
    }
}

} // verus!
