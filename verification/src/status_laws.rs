//! What a machine's report of itself and the commands that it is asked to run
//! come to, in terms of what was measured, said and asked.

use crate::resources;
use crate::resources::{
    capture_machine_status, choose_mount, substrate_status, valid_substrate_status, HerdrSettings,
    MachineStatus, Measurements, Mount, StatusError, SubstrateStatus,
};
use crate::rpc::{ErrorCode, RpcError};
use crate::rpc_payload;
use crate::rpc_payload::{
    validate_exec_argv, ExecResult, PendingSeverity, WorkerDoctorFinding, WorkerDoctorFindingState,
    WorkerDoctorReport, WorkerDoctorSeverity,
};
use crate::secret;
use crate::text;
use vstd::prelude::*;
use vstd::utf8::encode_utf8;

verus! {

// ---------------------------------------------------------------------------
// Words that the laws are stated with
// ---------------------------------------------------------------------------

/// Whether the detector says of a text that it is shaped like a secret.
pub open spec fn flagged<F: Fn(&str) -> bool>(secret: F, text: Seq<char>) -> bool {
    exists|asked: &str| asked@ == text && #[trigger] call_ensures(secret, (asked,), true)
}

/// Whether a text is fit to be shown: there is something, it is no longer than
/// `limit` bytes, has no control character and is not flagged.
pub open spec fn showable<F: Fn(&str) -> bool>(secret: F, text: Seq<char>, limit: nat) -> bool {
    &&& text.len() > 0
    &&& encode_utf8(text).len() <= limit
    &&& forall|i: int|
        0 <= i < text.len() ==> 0x20 <= (#[trigger] text[i]) as u32 && !(0x7f <= text[i] as u32
            <= 0x9f)
    &&& !flagged(secret, text)
}

proof fn lemma_showable<F: Fn(&str) -> bool>(secret: F, value: Seq<char>, limit: nat)
    ensures
        resources::presentable(secret, value, limit) == showable(secret, value, limit),
{
    if text::has_control(value) {
        let i = choose|i: int| 0 <= i < value.len() && text::is_control(#[trigger] value[i]);
        assert(!(0x20 <= value[i] as u32 && !(0x7f <= value[i] as u32 <= 0x9f)));
    } else {
        assert forall|i: int| 0 <= i < value.len() implies 0x20 <= (#[trigger] value[i]) as u32
            && !(0x7f <= value[i] as u32 <= 0x9f) by {
            assert(!text::is_control(value[i]));
        }
    }
}

// ---------------------------------------------------------------------------
// Where a root lies
// ---------------------------------------------------------------------------

/// Whether two first parts of paths are the same, where the letter of a drive may
/// be large or small: `C:` and `c:`, `\\?\C:` and `\\?\c:`.
pub open spec fn same_drive(left: Seq<u8>, right: Seq<u8>) -> bool {
    &&& left.len() == right.len()
    &&& forall|k: int|
        #![trigger left[k]]
        #![trigger right[k]]
        0 <= k < left.len() ==> left[k] == right[k] || {
            &&& k + 1 < left.len() && left[k + 1] == 0x3a
            &&& k == 0 || k == 4 && left.take(4) == seq![0x5cu8, 0x5c, 0x3f, 0x5c]
            &&& 0x41 <= left[k] <= 0x5a && right[k] == left[k] + 0x20 || 0x41 <= right[k] <= 0x5a
                && left[k] == right[k] + 0x20
        }
}

/// Whether a path leads to another: each of its parts is the part of the other at
/// that place.
pub open spec fn leads_to(above: Seq<Vec<u8>>, path: Seq<Vec<u8>>) -> bool {
    &&& above.len() <= path.len()
    &&& above.len() > 0 ==> same_drive(path[0]@, above[0]@)
    &&& forall|i: int| 0 < i < above.len() ==> (#[trigger] path[i])@ == above[i]@
}

proof fn lemma_same_drive(left: Seq<u8>, right: Seq<u8>)
    ensures
        (resources::folded_drive(left) == resources::folded_drive(right)) == same_drive(
            left,
            right,
        ),
{
    let a = resources::folded_drive(left);
    let b = resources::folded_drive(right);
    let verbatim = seq![0x5cu8, 0x5c, 0x3f, 0x5c];
    if left.len() > 4 {
        assert((left.take(4) == verbatim) == (left[0] == 0x5c && left[1] == 0x5c && left[2] == 0x3f
            && left[3] == 0x5c)) by {
            if left[0] == 0x5c && left[1] == 0x5c && left[2] == 0x3f && left[3] == 0x5c {
                assert(left.take(4) =~= verbatim);
            } else if left.take(4) == verbatim {
                assert(left.take(4)[0] == left[0] && left.take(4)[1] == left[1]);
                assert(left.take(4)[2] == left[2] && left.take(4)[3] == left[3]);
            }
        }
    }
    if a == b {
        assert(a.len() == b.len());
        assert forall|k: int|
            #![trigger left[k]]
            #![trigger right[k]]
            0 <= k < left.len() implies left[k] == right[k] || {
            &&& k + 1 < left.len() && left[k + 1] == 0x3a
            &&& k == 0 || k == 4 && left.take(4) == verbatim
            &&& 0x41 <= left[k] <= 0x5a && right[k] == left[k] + 0x20 || 0x41 <= right[k] <= 0x5a
                && left[k] == right[k] + 0x20
        } by {
            assert(a[k] == b[k]);
            if left.len() > 1 {
                assert(a[1] == b[1]);
                assert(a[0] == b[0]);
            }
            if left.len() > 5 {
                assert(a[2] == b[2] && a[3] == b[3] && a[4] == b[4] && a[5] == b[5]);
            }
        }
    } else if same_drive(left, right) {
        assert forall|k: int| 0 <= k < left.len() implies a[k] == b[k] by {
            assert(left[k] == left[k]);
            if left.len() > 1 {
                assert(left[0] == left[0] && left[1] == left[1]);
                assert(left[1] == right[1]);
            }
            if left.len() > 5 {
                assert(left[2] == right[2] && left[3] == right[3] && left[5] == right[5]);
                assert(left[4] == left[4]);
            }
        }
        assert(a =~= b);
    }
}

proof fn lemma_leads_to(above: Seq<Vec<u8>>, path: Seq<Vec<u8>>)
    ensures
        resources::lies_below(text::byte_views(path), text::byte_views(above)) == leads_to(
            above,
            path,
        ),
{
    let whole = resources::folded_path(text::byte_views(path));
    let prefix = resources::folded_path(text::byte_views(above));
    if above.len() <= path.len() {
        if above.len() > 0 {
            lemma_same_drive(path[0]@, above[0]@);
        }
        let taken = whole.take(above.len() as int);
        if taken == prefix {
            if above.len() > 0 {
                assert(taken[0] == prefix[0]);
            }
            assert forall|i: int| 0 < i < above.len() implies (#[trigger] path[i])@
                == above[i]@ by {
                assert(taken[i] == prefix[i]);
            }
        } else if leads_to(above, path) {
            assert forall|i: int| 0 <= i < above.len() implies taken[i] == prefix[i] by {
                if i > 0 {
                    assert(path[i]@ == above[i]@);
                }
            }
            assert(taken =~= prefix);
        }
    }
}

/// Whether of the file systems that lead to a root this is the one that holds it:
/// none of them lies deeper, and of those equally deep it is the last.
pub open spec fn holds(mounts: Seq<Mount>, root: Seq<Vec<u8>>, chosen: int) -> bool {
    &&& 0 <= chosen < mounts.len()
    &&& leads_to(mounts[chosen].components@, root)
    &&& forall|i: int|
        #![trigger mounts[i]]
        0 <= i < mounts.len() && leads_to(mounts[i].components@, root) ==> {
            &&& mounts[i].components@.len() <= mounts[chosen].components@.len()
            &&& i > chosen ==> mounts[i].components@.len() < mounts[chosen].components@.len()
        }
}

proof fn lemma_holds(mounts: Seq<Mount>, root: Seq<Vec<u8>>, chosen: int)
    ensures
        resources::holds_root(root, mounts, chosen) ==> holds(mounts, root, chosen),
{
    if resources::holds_root(root, mounts, chosen) {
        lemma_leads_to(mounts[chosen].components@, root);
        assert forall|i: int|
            #![trigger mounts[i]]
            0 <= i < mounts.len() && leads_to(mounts[i].components@, root) implies {
            &&& mounts[i].components@.len() <= mounts[chosen].components@.len()
            &&& i > chosen ==> mounts[i].components@.len() < mounts[chosen].components@.len()
        } by {
            lemma_leads_to(mounts[i].components@, root);
        }
    }
}

/// The file system of a root is the deepest that leads to it, and there is none
/// only where none leads there.
pub proof fn roots_lie_on_the_deepest_file_system(
    root: &[Vec<u8>],
    mounts: &[Mount],
    chosen: Option<usize>,
)
    requires
        call_ensures(choose_mount, (root, mounts), chosen),
    ensures
        chosen matches Some(chosen) ==> holds(mounts@, root@, chosen as int),
        chosen is None ==> forall|i: int|
            0 <= i < mounts@.len() ==> !leads_to((#[trigger] mounts@[i]).components@, root@),
{
    match chosen {
        Some(chosen) => {
            lemma_holds(mounts@, root@, chosen as int);
        },
        None => {
            assert forall|i: int| 0 <= i < mounts@.len() implies !leads_to(
                (#[trigger] mounts@[i]).components@,
                root@,
            ) by {
                lemma_leads_to(mounts@[i].components@, root@);
            }
        },
    }
}

// ---------------------------------------------------------------------------
// Reports
// ---------------------------------------------------------------------------

/// A captured report says what was measured: the processors, the total and the
/// available memory and the time as they were, the root as it was given, the free
/// space of the file system that holds the root, and no jobs. There is a report
/// whenever a file system leads to the root.
pub proof fn reports_say_what_was_measured(
    machine_id: u128,
    root: &str,
    root_components: &[Vec<u8>],
    herdr: &Option<HerdrSettings>,
    measured: Measurements,
    result: Result<MachineStatus, StatusError>,
)
    requires
        call_ensures(
            capture_machine_status,
            (machine_id, root, root_components, herdr, measured),
            result,
        ),
    ensures
        result matches Ok(status) ==> {
            &&& status.memory.total_bytes == measured.memory.total_bytes
            &&& status.memory.available_bytes == measured.memory.available_bytes
            &&& status.cpu.logical == measured.cpu.logical
            &&& status.cpu.load_in_range == measured.cpu.load_in_range
            &&& status.time@ == measured.time@
            &&& status.machine_id == machine_id
            &&& status.disk.root@ == root@
            &&& exists|chosen: int| #[trigger]
                holds(measured.mounts@, root_components@, chosen) && status.disk.free_bytes
                    == measured.mounts@[chosen].free_bytes
            &&& status.jobs.running == 0 && status.jobs.heavy_running == 0
        },
        result is Err <==> forall|i: int|
            0 <= i < measured.mounts@.len() ==> !leads_to(
                (#[trigger] measured.mounts@[i]).components@,
                root_components@,
            ),
{
    match result {
        Ok(status) => {
            let chosen = choose|chosen: int| #[trigger]
                resources::holds_root(root_components@, measured.mounts@, chosen)
                    && status.disk.free_bytes == measured.mounts@[chosen].free_bytes;
            lemma_holds(measured.mounts@, root_components@, chosen);
            assert(leads_to(measured.mounts@[chosen].components@, root_components@));
        },
        Err(_) => {
            assert forall|i: int| 0 <= i < measured.mounts@.len() implies !leads_to(
                (#[trigger] measured.mounts@[i]).components@,
                root_components@,
            ) by {
                lemma_leads_to(measured.mounts@[i].components@, root_components@);
            }
        },
    }
}

/// Two measurements that differ in the available memory alone give reports that
/// differ in it alone.
pub proof fn available_memory_is_reported_by_itself(
    machine_id: u128,
    root: &str,
    root_components: &[Vec<u8>],
    herdr: &Option<HerdrSettings>,
    measured: Measurements,
    other: Measurements,
    result: Result<MachineStatus, StatusError>,
    other_result: Result<MachineStatus, StatusError>,
)
    requires
        call_ensures(
            capture_machine_status,
            (machine_id, root, root_components, herdr, measured),
            result,
        ),
        call_ensures(
            capture_machine_status,
            (machine_id, root, root_components, herdr, other),
            other_result,
        ),
        measured.memory.total_bytes == other.memory.total_bytes,
        measured.mounts == other.mounts,
    ensures
        result is Ok <==> other_result is Ok,
        result is Ok ==> {
            &&& result->Ok_0.memory.total_bytes == other_result->Ok_0.memory.total_bytes
            &&& result->Ok_0.memory.available_bytes - other_result->Ok_0.memory.available_bytes
                == measured.memory.available_bytes - other.memory.available_bytes
        },
{
    reports_say_what_was_measured(machine_id, root, root_components, herdr, measured, result);
    reports_say_what_was_measured(machine_id, root, root_components, herdr, other, other_result);
}

/// A substrate is reported exactly where it is installed and not disabled, and
/// with the session that the manifest names.
pub proof fn substrates_are_reported_where_they_are_used(
    herdr: &Option<HerdrSettings>,
    status: SubstrateStatus,
)
    requires
        call_ensures(substrate_status, (herdr,), status),
    ensures
        (*herdr matches Some(settings) && settings.installed == Some(true) && settings.enabled
            != Some(false)) ==> {
            &&& status.state@ == "registered"@
            &&& status.kind matches Some(kind) && kind@ == "herdr"@
            &&& text::optional_text(status.session) == text::optional_text(herdr->0.session)
        },
        !(*herdr matches Some(settings) && settings.installed == Some(true) && settings.enabled
            != Some(false)) ==> status.state@ == "none"@ && status.kind is None && status.session
            is None,
{
}

/// A report carries the substrate that the manifest says.
pub proof fn reports_carry_their_substrate(
    machine_id: u128,
    root: &str,
    root_components: &[Vec<u8>],
    herdr: &Option<HerdrSettings>,
    measured: Measurements,
    result: Result<MachineStatus, StatusError>,
)
    requires
        call_ensures(
            capture_machine_status,
            (machine_id, root, root_components, herdr, measured),
            result,
        ),
    ensures
        result matches Ok(status) ==> {
            let used = *herdr matches Some(settings) && settings.installed == Some(true)
                && settings.enabled != Some(false);
            &&& status.substrate.state@ == if used {
                "registered"@
            } else {
                "none"@
            }
            &&& text::optional_text(status.substrate.kind) == if used {
                Some("herdr"@)
            } else {
                None
            }
            &&& text::optional_text(status.substrate.session) == if used {
                text::optional_text(herdr->0.session)
            } else {
                None
            }
        },
{
}

/// The substrates that may be reported: none at all; a registered herdr; an active
/// herdr that names its session. A session is fit to be shown.
pub open spec fn reportable<F: Fn(&str) -> bool>(secret: F, status: SubstrateStatus) -> bool {
    &&& status.session matches Some(session) ==> showable(secret, session@, 255)
    &&& {
        ||| status.state@ == "none"@ && status.kind is None && status.session is None
        ||| status.state@ == "registered"@ && text::optional_text(status.kind) == Some("herdr"@)
        ||| status.state@ == "active"@ && text::optional_text(status.kind) == Some("herdr"@)
            && status.session is Some
    }
}

proof fn lemma_reportable<F: Fn(&str) -> bool>(secret: F, status: SubstrateStatus)
    ensures
        resources::substrate_is_valid(secret, status) == reportable(secret, status),
{
    reveal_strlit("none");
    reveal_strlit("registered");
    reveal_strlit("active");
    assert("none"@.len() == 4 && "registered"@.len() == 10 && "active"@.len() == 6);
    if let Some(session) = status.session {
        lemma_showable(secret, session@, 255);
    }
}

/// A substrate is valid exactly where it is one of those that may be reported.
pub proof fn valid_substrates_may_be_reported<F: Fn(&str) -> bool>(
    status: &SubstrateStatus,
    secret: &F,
    valid: bool,
)
    requires
        call_ensures(valid_substrate_status::<F>, (status, secret), valid),
    ensures
        valid <==> reportable(*secret, *status),
{
    lemma_reportable(*secret, *status);
}

/// A report is accepted exactly where it is of the machine that was asked, its time
/// is one and short, it has processors and a load in range, it has memory and no
/// more available than there is, its root is fit to be shown, no more heavy jobs
/// run than jobs, and its substrate may be reported.
pub proof fn reports_are_accepted_where_they_make_sense<F: Fn(&str) -> bool>(
    status: &MachineStatus,
    expected: u128,
    time_is_valid: bool,
    secret: &F,
    acceptable: bool,
    result: Result<(), StatusError>,
)
    requires
        call_ensures(
            MachineStatus::is_acceptable::<F>,
            (status, expected, time_is_valid, secret),
            acceptable,
        ),
        call_ensures(MachineStatus::validate_for_client::<F>, (status, expected, secret), result),
    ensures
        acceptable <==> {
            &&& status.machine_id == expected
            &&& time_is_valid
            &&& encode_utf8(status.time@).len() <= 64
            &&& status.cpu.logical > 0
            &&& status.cpu.load_in_range
            &&& status.memory.total_bytes > 0
            &&& status.memory.available_bytes <= status.memory.total_bytes
            &&& showable(*secret, status.disk.root@, 32768)
            &&& status.jobs.heavy_running <= status.jobs.running
            &&& reportable(*secret, status.substrate)
        },
        time_is_valid == resources::rfc3339_time(status.time@) ==> (result is Ok <==> acceptable),
{
    lemma_reportable(*secret, status.substrate);
    lemma_showable(*secret, status.disk.root@, 32768);
}

// ---------------------------------------------------------------------------
// Commands
// ---------------------------------------------------------------------------

/// The bytes of all arguments together.
pub open spec fn bytes_of_all(argv: Seq<String>) -> nat
    decreases argv.len(),
{
    if argv.len() == 0 {
        0
    } else {
        bytes_of_all(argv.drop_last()) + encode_utf8(argv.last()@).len()
    }
}

proof fn lemma_bytes_of_all(argv: Seq<String>, n: nat)
    requires
        n <= argv.len(),
    ensures
        rpc_payload::argument_bytes(argv, n) == bytes_of_all(argv.take(n as int)),
    decreases n,
{
    if n > 0 {
        lemma_bytes_of_all(argv, (n - 1) as nat);
        assert(argv.take(n as int).drop_last() =~= argv.take(n - 1));
    }
}

/// A command is accepted exactly where it has a program and at most 256 arguments,
/// each at most 32 KiB and all together at most 256 KiB long, and the detector
/// flags none of them. Which characters they hold otherwise does not matter.
pub proof fn commands_are_accepted_by_size_and_detector<F: Fn(&str) -> bool>(
    argv: &[String],
    secret: &F,
    result: Result<(), RpcError>,
)
    requires
        call_ensures(validate_exec_argv::<F>, (argv, secret), result),
    ensures
        result is Ok <==> {
            &&& 1 <= argv@.len() <= 256
            &&& argv@[0]@.len() > 0
            &&& forall|i: int|
                0 <= i < argv@.len() ==> encode_utf8((#[trigger] argv@[i])@).len() <= 32768
            &&& forall|i: int| 0 <= i < argv@.len() ==> !flagged(*secret, (#[trigger] argv@[i])@)
            &&& bytes_of_all(argv@) <= 262144
        },
        result matches Err(error) ==> error.code == ErrorCode::UsageInvalidArgument,
{
    lemma_bytes_of_all(argv@, argv@.len());
    assert(argv@.take(argv@.len() as int) =~= argv@);
    let few = 1 <= argv@.len() <= 256 && argv@[0]@.len() > 0;
    let small = bytes_of_all(argv@) <= 262144;
    if result is Ok {
        assert forall|i: int| 0 <= i < argv@.len() implies encode_utf8(
            (#[trigger] argv@[i])@,
        ).len() <= 32768 && !flagged(*secret, argv@[i]@) by {
            assert(!secret::detects(*secret, argv@[i]@));
        }
    } else if few && small && (forall|i: int|
        0 <= i < argv@.len() ==> encode_utf8((#[trigger] argv@[i])@).len() <= 32768) && (forall|
        i: int,
    |
        0 <= i < argv@.len() ==> !flagged(*secret, (#[trigger] argv@[i])@)) {
        assert forall|i: int|
            #![trigger argv@[i]]
            0 <= i < argv@.len() implies text::byte_len(argv@[i]@) <= 32768 && !secret::detects(
            *secret,
            argv@[i]@,
        ) by {
            assert(encode_utf8(argv@[i]@).len() <= 32768);
            assert(!flagged(*secret, argv@[i]@));
        }
    }
}

/// Two commands whose arguments are equally long and flagged alike are both
/// accepted or both refused, whatever else their arguments say.
pub proof fn commands_differ_only_by_size_and_detector<F: Fn(&str) -> bool>(
    argv: &[String],
    other: &[String],
    secret: &F,
    result: Result<(), RpcError>,
    other_result: Result<(), RpcError>,
)
    requires
        call_ensures(validate_exec_argv::<F>, (argv, secret), result),
        call_ensures(validate_exec_argv::<F>, (other, secret), other_result),
        argv@.len() == other@.len(),
        argv@.len() > 0 ==> (argv@[0]@.len() == 0 <==> other@[0]@.len() == 0),
        forall|i: int|
            #![trigger argv@[i]]
            #![trigger other@[i]]
            0 <= i < argv@.len() ==> encode_utf8(argv@[i]@).len() == encode_utf8(other@[i]@).len()
                && flagged(*secret, argv@[i]@) == flagged(*secret, other@[i]@),
    ensures
        result is Ok <==> other_result is Ok,
{
    commands_are_accepted_by_size_and_detector(argv, secret, result);
    commands_are_accepted_by_size_and_detector(other, secret, other_result);
    lemma_equally_long(argv@, other@);
    if result is Ok {
        assert forall|i: int| 0 <= i < other@.len() implies encode_utf8(
            (#[trigger] other@[i])@,
        ).len() <= 32768 && !flagged(*secret, other@[i]@) by {
            assert(!flagged(*secret, argv@[i]@));
        }
    }
    if other_result is Ok {
        assert forall|i: int| 0 <= i < argv@.len() implies encode_utf8(
            (#[trigger] argv@[i])@,
        ).len() <= 32768 && !flagged(*secret, argv@[i]@) by {
            assert(!flagged(*secret, other@[i]@));
        }
    }
}

proof fn lemma_equally_long(argv: Seq<String>, other: Seq<String>)
    requires
        argv.len() == other.len(),
        forall|i: int|
            #![trigger argv[i]]
            #![trigger other[i]]
            0 <= i < argv.len() ==> encode_utf8(argv[i]@).len() == encode_utf8(other[i]@).len(),
    ensures
        bytes_of_all(argv) == bytes_of_all(other),
    decreases argv.len(),
{
    if argv.len() > 0 {
        let a = argv.drop_last();
        let b = other.drop_last();
        assert forall|i: int|
            #![trigger a[i]]
            #![trigger b[i]]
            0 <= i < a.len() implies encode_utf8(a[i]@).len() == encode_utf8(b[i]@).len() by {
            assert(a[i] == argv[i] && b[i] == other[i]);
        }
        lemma_equally_long(a, b);
        assert(argv[argv.len() - 1] == argv.last() && other[other.len() - 1] == other.last());
    }
}

/// What a controller shows of a result is what the worker sent, so long as neither
/// stream is over a mebibyte; a stream that is marked or flagged is replaced as a
/// whole and marked, and everything else stays.
pub proof fn results_are_shown_as_sent<F: Fn(&str) -> bool>(
    received: ExecResult,
    secret: &F,
    result: Result<ExecResult, RpcError>,
)
    requires
        call_ensures(ExecResult::sanitize_for_client::<F>, (received, secret), result),
    ensures
        result is Ok <==> encode_utf8(received.stdout@).len() <= 1048576 && encode_utf8(
            received.stderr@,
        ).len() <= 1048576,
        result matches Err(error) ==> error.code == ErrorCode::ProtocolMalformed,
        result matches Ok(shown) ==> {
            let hide_out = received.stdout_redacted || flagged(*secret, received.stdout@);
            let hide_err = received.stderr_redacted || flagged(*secret, received.stderr@);
            &&& shown.exit_code == received.exit_code
            &&& shown.duration_ms == received.duration_ms
            &&& shown.stdout_lossy == received.stdout_lossy
            &&& shown.stderr_lossy == received.stderr_lossy
            &&& shown.stdout_redacted == hide_out && shown.stderr_redacted == hide_err
            &&& shown.stdout@ == if hide_out {
                "[redacted secret-shaped output]"@
            } else {
                received.stdout@
            }
            &&& shown.stderr@ == if hide_err {
                "[redacted secret-shaped output]"@
            } else {
                received.stderr@
            }
        },
{
}

// ---------------------------------------------------------------------------
// Findings
// ---------------------------------------------------------------------------

/// The finding of a pending action is a failure of the action's severity, numbered
/// from one.
pub proof fn pending_actions_are_failures(
    index: usize,
    severity: PendingSeverity,
    finding: WorkerDoctorFinding,
)
    requires
        index < usize::MAX,
        call_ensures(WorkerDoctorFinding::from_pending_action, (index, severity), finding),
    ensures
        finding.id@ == "pending.action-"@ + crate::number::decimal((index + 1) as nat),
        finding.state == WorkerDoctorFindingState::Fail,
        finding.severity == WorkerDoctorSeverity::Info <==> severity == PendingSeverity::Info,
        finding.severity == WorkerDoctorSeverity::Warning <==> severity == PendingSeverity::Warning,
        finding.severity == WorkerDoctorSeverity::Error <==> severity == PendingSeverity::Error,
        finding.message@ == "a worker manifest pending action remains unresolved"@,
        finding.remediation is Some && finding.remediation->0.styrn_args is None,
{
}

/// Whether a controller takes a finding: its identifier names a probe, what it says
/// is fit to be shown, and a command that it suggests is `machine init`.
pub open spec fn takes_finding<F: Fn(&str) -> bool, P: Fn(&str) -> bool>(
    secret: F,
    probe_id: P,
    finding: WorkerDoctorFinding,
) -> bool {
    &&& flagged(probe_id, finding.id@)
    &&& showable(secret, finding.message@, 1024)
    &&& finding.remediation matches Some(remediation) ==> {
        &&& showable(secret, remediation.summary@, 1024)
        &&& remediation.styrn_args matches Some(arguments) ==> text::string_views(arguments@)
            == seq!["machine"@, "init"@]
    }
}

pub(crate) proof fn lemma_takes_finding<F: Fn(&str) -> bool, P: Fn(&str) -> bool>(
    secret: F,
    probe_id: P,
    finding: WorkerDoctorFinding,
)
    ensures
        rpc_payload::acceptable_finding(secret, probe_id, finding) == takes_finding(
            secret,
            probe_id,
            finding,
        ),
{
    lemma_showable(secret, finding.message@, 1024);
    if let Some(remediation) = finding.remediation {
        lemma_showable(secret, remediation.summary@, 1024);
        if let Some(arguments) = remediation.styrn_args {
            let views = text::string_views(arguments@);
            let wanted = seq!["machine"@, "init"@];
            if rpc_payload::is_init_command(arguments@) {
                assert(views =~= wanted);
            } else if views == wanted {
                assert(views.len() == 2 && views[0] == wanted[0] && views[1] == wanted[1]);
            }
        }
    }
}

/// A worker's check of itself is accepted exactly where it has the minimum
/// coverage, says that it is incomplete, and has one to sixty-four findings that a
/// controller takes, no two of the same identifier.
pub proof fn doctor_reports_are_accepted_by_their_findings<
    F: Fn(&str) -> bool,
    P: Fn(&str) -> bool,
>(report: &WorkerDoctorReport, secret: &F, probe_id: &P, result: Result<(), RpcError>)
    requires
        call_ensures(
            WorkerDoctorReport::validate_for_client::<F, P>,
            (report, secret, probe_id),
            result,
        ),
    ensures
        result is Ok <==> {
            &&& report.coverage@ == "phase1_minimum"@
            &&& !report.complete
            &&& 1 <= report.findings@.len() <= 64
            &&& forall|i: int|
                0 <= i < report.findings@.len() ==> takes_finding(
                    *secret,
                    *probe_id,
                    #[trigger] report.findings@[i],
                )
            &&& forall|i: int, j: int|
                0 <= i < j < report.findings@.len() ==> (#[trigger] report.findings@[i]).id@ != (
                #[trigger] report.findings@[j]).id@
        },
        result matches Err(error) ==> error.code == ErrorCode::ProtocolMalformed,
{
    let findings = report.findings@;
    assert forall|i: int| 0 <= i < findings.len() implies rpc_payload::acceptable_finding(
        *secret,
        *probe_id,
        #[trigger] findings[i],
    ) == takes_finding(*secret, *probe_id, findings[i]) by {
        lemma_takes_finding(*secret, *probe_id, findings[i]);
    }
}

} // verus!
