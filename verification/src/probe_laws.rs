//! What the probes of a machine find, in terms of what its tools printed.

use crate::baseline;
use crate::baseline::{
    baseline_command_environment, baseline_probe_snapshot, git_program, git_snapshot,
    judge_tailscale_status, poll_baseline_command, read_bounded, run_baseline_readonly_command,
    run_fixed_baseline_command, sleep_snapshot, ssh_match_context, ssh_server_snapshot,
    tailscale_snapshot, tailscale_status_snapshot, BaselineCommandFailure, BaselineCommandOutput,
    BaselineProbe, BaselineProbeSnapshot, BaselineTailscaleMode, BaselineTailscalePosture,
    CommandPoll, CommandRun, CommandStep, GitFacts, JsonScalar, ScalarModel, SleepFacts,
    SnapshotModel, SshServerFacts, TailscaleFacts,
};
use crate::error::{ErrorKind, PlatformError};
use crate::key_laws::{lemma_lets_in, lets_in};
use crate::probe_text;
use crate::probe_text::{
    parse_git_version, parse_service_auto_start, parse_sleep_posture, parse_sshd_service_running,
    parse_tailscale_unattended_policy_value, tailscale_unattended_policy_is_always,
};
use crate::scan;
use crate::sshd_config;
use crate::sshd_config::{parse_effective_sshd_config, EffectiveSshdConfig};
use crate::text;
use crate::text_laws;
use crate::text_laws::{all_digits, worth_of};
use vstd::prelude::*;
use vstd::utf8::{decode_utf8, encode_utf8, valid_utf8};

verus! {

// ---------------------------------------------------------------------------
// Commands
// ---------------------------------------------------------------------------

/// Output is taken as it was read, unless it could not be read or is over 64 KiB.
pub proof fn output_is_bounded(
    read: Result<Vec<u8>, PlatformError>,
    result: Result<Vec<u8>, BaselineCommandFailure>,
)
    requires
        call_ensures(read_bounded, (read,), result),
    ensures
        result is Ok <==> read is Ok && read->Ok_0@.len() <= 65536,
        result is Ok ==> result->Ok_0 == read->Ok_0,
        result matches Err(failure) ==> failure == if read is Ok {
            BaselineCommandFailure::OutputTooLarge
        } else {
            BaselineCommandFailure::Failed
        },
{
}

/// A command is run in the C locale; what is added stands behind that.
pub proof fn commands_run_in_the_c_locale(
    extra: Vec<(String, String)>,
    environment: Vec<(String, String)>,
)
    requires
        call_ensures(baseline_command_environment, (extra,), environment),
    ensures
        environment@.len() == extra@.len() + 2,
        environment@[0].0@ == "LANG"@ && environment@[0].1@ == "C"@,
        environment@[1].0@ == "LC_ALL"@ && environment@[1].1@ == "C"@,
        forall|i: int|
            0 <= i < extra@.len() ==> (#[trigger] environment@[i + 2]).0@ == extra@[i].0@
                && environment@[i + 2].1@ == extra@[i].1@,
{
    let said = baseline::pair_texts(environment@);
    let more = baseline::pair_texts(extra@);
    let all = baseline::command_environment(more);
    assert(said.len() == environment@.len());
    assert(said[0] == all[0] && said[1] == all[1]);
    assert forall|i: int| 0 <= i < extra@.len() implies (#[trigger] environment@[i + 2]).0@
        == extra@[i].0@ && environment@[i + 2].1@ == extra@[i].1@ by {
        assert(said[i + 2] == all[i + 2]);
        assert(all[i + 2] == more[i]);
    }
}

/// A command that still runs is waited for until its time is up, two seconds where
/// nothing else is said, and then stopped; one that ended is collected.
pub proof fn commands_are_waited_for(
    poll: CommandPoll,
    timeout: u64,
    step: CommandStep,
    usual: CommandStep,
)
    requires
        call_ensures(poll_baseline_command, (poll, timeout), step),
        call_ensures(run_fixed_baseline_command, (poll,), usual),
    ensures
        step is Sleep <==> (poll matches CommandPoll::Running { elapsed_millis } && elapsed_millis
            < timeout),
        step is Stop <==> poll is Failed || (poll matches CommandPoll::Running { elapsed_millis }
            && elapsed_millis >= timeout),
        poll matches CommandPoll::Exited { success } ==> step == (CommandStep::Collect { success }),
        timeout == 2000 ==> usual == step,
        usual is Sleep <==> (poll matches CommandPoll::Running { elapsed_millis } && elapsed_millis
            < 2000),
{
}

/// A command tells something exactly where it started, had output, ended by itself
/// and both of its streams were read within bounds; it tells then how it ended and
/// what it printed.
pub proof fn commands_tell_what_they_printed(
    run: CommandRun,
    result: Result<BaselineCommandOutput, BaselineCommandFailure>,
)
    requires
        call_ensures(run_baseline_readonly_command, (run,), result),
    ensures
        result is Ok <==> {
            &&& run.spawned is Ok
            &&& run.has_output
            &&& run.poll is Exited
            &&& run.stdout matches Some(Ok(bytes)) && bytes@.len() <= 65536
            &&& run.stderr matches Some(Ok(bytes)) && bytes@.len() <= 65536
        },
        result matches Ok(output) ==> output.stdout == run.stdout->0->Ok_0 && output.success
            == run.poll->success,
        result == Err::<BaselineCommandOutput, _>(BaselineCommandFailure::NotFound)
            <==> run.spawned is Err && run.spawned->Err_0.spec_kind() == ErrorKind::NotFound,
        result == Err::<BaselineCommandOutput, _>(BaselineCommandFailure::TimedOut)
            <==> run.spawned is Ok && run.has_output && run.poll is Running && run.stopped is Ok,
        result == Err::<BaselineCommandOutput, _>(BaselineCommandFailure::OutputTooLarge)
            <==> run.spawned is Ok && run.has_output && run.poll is Exited && (run.stdout matches
            Some(Ok(first)) && (first@.len() > 65536 || (run.stderr matches Some(Ok(second))
            && second@.len() > 65536))),
{
}

// ---------------------------------------------------------------------------
// Services
// ---------------------------------------------------------------------------

/// Whether a text has a word anywhere in it.
pub open spec fn holds(text: Seq<char>, word: Seq<char>) -> bool {
    exists|before: Seq<char>, after: Seq<char>| text == #[trigger] (before + word + after)
}

/// Whether output is text that has a word anywhere in it.
pub open spec fn prints(output: Seq<u8>, word: Seq<char>) -> bool {
    valid_utf8(output) && holds(decode_utf8(output), word)
}

proof fn lemma_holds(text: Seq<char>, word: Seq<char>)
    ensures
        scan::occurs(text, word) == holds(text, word),
{
    if scan::occurs(text, word) {
        let i = choose|i: int|
            0 <= i && i + word.len() <= text.len() && #[trigger] text.subrange(i, i + word.len())
                == word;
        assert(text =~= text.take(i) + word + text.skip(i + word.len()));
    }
    if holds(text, word) {
        let (before, after) = choose|before: Seq<char>, after: Seq<char>|
            text == #[trigger] (before + word + after);
        let i = before.len() as int;
        assert(text.subrange(i, i + word.len()) =~= word);
    }
}

/// A service runs exactly where its output says `RUNNING`, and is stopped where it
/// says `STOPPED` and not `RUNNING`; otherwise nothing is known.
pub proof fn services_run_where_they_say_so(output: &[u8], running: Option<bool>)
    requires
        call_ensures(parse_sshd_service_running, (output,), running),
    ensures
        running == Some(true) <==> prints(output@, "RUNNING"@),
        running == Some(false) <==> prints(output@, "STOPPED"@) && !prints(output@, "RUNNING"@),
{
    lemma_holds(decode_utf8(output@), "RUNNING"@);
    lemma_holds(decode_utf8(output@), "STOPPED"@);
}

/// Whether a line says a value under a label: it is the label, a colon and the
/// value, with margins round both, and the first colon is that one.
pub open spec fn says_under(line: Seq<char>, label: Seq<char>, value: Seq<char>) -> bool {
    exists|left: Seq<char>, right: Seq<char>|
        line == #[trigger] (left + seq![':'] + right) && !left.contains(':') && scan::trim(left)
            == label && scan::trim(right) == value
}

proof fn lemma_says_under(line: Seq<char>, label: Seq<char>)
    ensures
        probe_text::labelled(line, label) matches Some(value) ==> says_under(line, label, value),
        forall|value: Seq<char>| #[trigger]
            says_under(line, label, value) ==> probe_text::labelled(line, label) == Some(value),
{
    scan::lemma_until(line, ':');
    let at = scan::until(line, ':') as int;
    if at < line.len() && scan::trim(line.take(at)) == label {
        let left = line.take(at);
        let right = line.skip(at + 1);
        assert(line =~= left + seq![':'] + right);
        if left.contains(':') {
            let i = choose|i: int| 0 <= i < left.len() && left[i] == ':';
            assert(line[i] == ':');
        }
        assert(says_under(line, label, scan::trim(right)));
    }
    assert forall|value: Seq<char>| #[trigger] says_under(line, label, value) implies
        probe_text::labelled(line, label) == Some(value) by {
        let (left, right) = choose|left: Seq<char>, right: Seq<char>|
            line == #[trigger] (left + seq![':'] + right) && !left.contains(':') && scan::trim(left)
                == label && scan::trim(right) == value;
        let n = left.len() as int;
        assert forall|i: int| 0 <= i < n implies line[i] != ':' by {
            assert(line[i] == left[i]);
            if left[i] == ':' {
                assert(left.contains(':'));
            }
        }
        scan::lemma_until_is(line, ':', n);
        assert(line.take(n) =~= left);
        assert(line.skip(n + 1) =~= right);
    }
}

/// Whether exactly one line says something under a label, and this is what it says.
pub open spec fn says_once(lines: Seq<Seq<char>>, label: Seq<char>, value: Seq<char>) -> bool {
    exists|at: int|
        0 <= at < lines.len() && says_under(#[trigger] lines[at], label, value) && forall|
            i: int,
            other: Seq<char>,
        |
            0 <= i < lines.len() && #[trigger] says_under(lines[i], label, other) ==> i == at
}

proof fn lemma_none_says(lines: Seq<Seq<char>>, label: Seq<char>)
    ensures
        probe_text::all_labelled(lines, label).len() == 0 <==> forall|i: int, other: Seq<char>|
            0 <= i < lines.len() ==> !(#[trigger] says_under(lines[i], label, other)),
    decreases lines.len(),
{
    if lines.len() > 0 {
        let fewer = lines.drop_last();
        lemma_none_says(fewer, label);
        lemma_says_under(lines.last(), label);
        if probe_text::all_labelled(lines, label).len() == 0 {
            assert forall|i: int, other: Seq<char>| 0 <= i < lines.len() implies !(
            #[trigger] says_under(lines[i], label, other)) by {
                if i < fewer.len() {
                    assert(fewer[i] == lines[i]);
                    assert(!says_under(fewer[i], label, other));
                }
            }
        } else if forall|i: int, other: Seq<char>|
            0 <= i < lines.len() ==> !(#[trigger] says_under(lines[i], label, other)) {
            assert forall|i: int, other: Seq<char>| 0 <= i < fewer.len() implies !(
            #[trigger] says_under(fewer[i], label, other)) by {
                assert(fewer[i] == lines[i]);
                assert(!says_under(lines[i], label, other));
            }
            if let Some(value) = probe_text::labelled(lines.last(), label) {
                assert(says_under(lines[lines.len() - 1], label, value));
            }
        }
    }
}

proof fn lemma_says_once(lines: Seq<Seq<char>>, label: Seq<char>)
    ensures
        probe_text::all_labelled(lines, label).len() == 1 ==> says_once(
            lines,
            label,
            probe_text::all_labelled(lines, label)[0],
        ),
        forall|value: Seq<char>| #[trigger]
            says_once(lines, label, value) ==> probe_text::all_labelled(lines, label) == seq![
                value,
            ],
    decreases lines.len(),
{
    let found = probe_text::all_labelled(lines, label);
    if lines.len() > 0 {
        let fewer = lines.drop_last();
        let last = lines.len() - 1;
        let before = probe_text::all_labelled(fewer, label);
        lemma_says_once(fewer, label);
        lemma_none_says(fewer, label);
        lemma_says_under(lines.last(), label);
        assert forall|i: int| 0 <= i < fewer.len() implies (#[trigger] fewer[i]) == lines[i] by {}
        if found.len() == 1 {
            if let Some(value) = probe_text::labelled(lines.last(), label) {
                assert(before.len() == 0);
                assert(found[0] == value);
                assert(says_under(lines[last], label, value));
                assert forall|i: int, other: Seq<char>|
                    0 <= i < lines.len() && #[trigger] says_under(lines[i], label, other) implies i
                    == last by {
                    if i < last {
                        assert(!says_under(fewer[i], label, other));
                    }
                }
            } else {
                assert(says_once(fewer, label, found[0]));
                let at = choose|at: int|
                    0 <= at < fewer.len() && says_under(#[trigger] fewer[at], label, found[0])
                        && forall|i: int, other: Seq<char>|
                        0 <= i < fewer.len() && #[trigger] says_under(fewer[i], label, other) ==> i
                            == at;
                assert(says_under(lines[at], label, found[0]));
                assert forall|i: int, other: Seq<char>|
                    0 <= i < lines.len() && #[trigger] says_under(lines[i], label, other) implies i
                    == at by {
                    if i < last {
                        assert(says_under(fewer[i], label, other));
                    }
                }
            }
        }
        assert forall|value: Seq<char>| #[trigger] says_once(lines, label, value) implies found
            == seq![value] by {
            let at = choose|at: int|
                0 <= at < lines.len() && says_under(#[trigger] lines[at], label, value) && forall|
                    i: int,
                    other: Seq<char>,
                |
                    0 <= i < lines.len() && #[trigger] says_under(lines[i], label, other) ==> i
                        == at;
            if at == last {
                assert forall|i: int, other: Seq<char>| 0 <= i < fewer.len() implies !(
                #[trigger] says_under(fewer[i], label, other)) by {
                    assert(fewer[i] == lines[i]);
                    if says_under(lines[i], label, other) {
                        assert(i == at);
                    }
                }
                assert(before.len() == 0);
                assert(found =~= seq![value]);
            } else {
                assert(says_under(fewer[at], label, value));
                assert forall|i: int, other: Seq<char>|
                    0 <= i < fewer.len() && #[trigger] says_under(fewer[i], label, other) implies i
                    == at by {
                    assert(says_under(lines[i], label, other));
                }
                assert(says_once(fewer, label, value));
                if let Some(other) = probe_text::labelled(lines.last(), label) {
                    assert(says_under(lines[last], label, other));
                }
            }
        }
    }
}

/// A service starts with the machine exactly where exactly one line gives its start
/// type, and that begins with `2` and says `AUTO_START`. Where not exactly one line
/// does, nothing is known.
pub proof fn services_start_where_they_say_so(output: &[u8], automatic: Option<bool>)
    requires
        call_ensures(parse_service_auto_start, (output,), automatic),
    ensures
        automatic is Some <==> valid_utf8(output@) && exists|value: Seq<char>| #[trigger]
            says_once(scan::lines(decode_utf8(output@)), "START_TYPE"@, value),
        forall|value: Seq<char>|
            valid_utf8(output@) && #[trigger] says_once(
                scan::lines(decode_utf8(output@)),
                "START_TYPE"@,
                value,
            ) ==> automatic == Some(value.len() > 0 && value[0] == '2' && holds(value, "AUTO_START"@)),
{
    let lines = scan::lines(decode_utf8(output@));
    lemma_says_once(lines, "START_TYPE"@);
    let values = probe_text::all_labelled(lines, "START_TYPE"@);
    if values.len() == 1 {
        lemma_holds(values[0], "AUTO_START"@);
        assert(says_once(lines, "START_TYPE"@, values[0]));
    }
    assert forall|value: Seq<char>|
        valid_utf8(output@) && #[trigger] says_once(lines, "START_TYPE"@, value) implies automatic
        == Some(value.len() > 0 && value[0] == '2' && holds(value, "AUTO_START"@)) by {
        assert(values == seq![value]);
        assert(values[0] == value);
        lemma_holds(value, "AUTO_START"@);
    }
}

/// A service runs unattended exactly where its policy is the text `always`, ended by
/// a zero.
pub proof fn policies_say_always(
    value: &[u16],
    always: bool,
    status: u32,
    value_type: u32,
    byte_count: u32,
    found: bool,
)
    requires
        call_ensures(parse_tailscale_unattended_policy_value, (value,), always),
        call_ensures(
            tailscale_unattended_policy_is_always,
            (status, value_type, byte_count, value),
            found,
        ),
    ensures
        always <==> value@ == seq![0x61u16, 0x6c, 0x77, 0x61, 0x79, 0x73, 0],
        found <==> status == 0 && value_type == 1 && byte_count == 14 && value@.len() >= 7
            && value@.take(7) == seq![0x61u16, 0x6c, 0x77, 0x61, 0x79, 0x73, 0],
{
    reveal_strlit("always");
    let word = seq![0x61u16, 0x6c, 0x77, 0x61, 0x79, 0x73, 0];
    assert(crate::layout::ascii_units("always"@).push(0) =~= word);
    assert(word.len() == 7);
    if found {
        assert(value@.take((byte_count / 2) as int).len() == 7);
    }
}

// ---------------------------------------------------------------------------
// Git
// ---------------------------------------------------------------------------

/// Whether a text is a version: one to ninety-six letters, digits and signs.
pub open spec fn is_version(version: Seq<char>, signs: Seq<char>) -> bool {
    &&& 1 <= version.len() <= 96
    &&& forall|i: int|
        0 <= i < version.len() ==> ('0' <= #[trigger] version[i] <= '9' || 'a' <= version[i] <= 'z'
            || 'A' <= version[i] <= 'Z' || signs.contains(version[i]))
}

/// Whether Git printed a version: at most 256 bytes of text that are, apart from
/// margins, `git version ` and the version.
pub open spec fn prints_version(output: Seq<u8>, version: Seq<char>) -> bool {
    &&& output.len() <= 256
    &&& valid_utf8(output)
    &&& scan::trim(decode_utf8(output)) == "git version "@ + version
    &&& is_version(version, ".-+()"@)
}

proof fn lemma_is_version(version: Seq<char>, signs: Seq<char>)
    ensures
        probe_text::is_version(version, signs) == is_version(version, signs),
{
    if is_version(version, signs) {
        assert forall|i: int| 0 <= i < version.len() implies text::is_alphanumeric(
            #[trigger] version[i],
        ) || signs.contains(version[i]) by {}
    }
    if probe_text::is_version(version, signs) {
        assert forall|i: int| 0 <= i < version.len() implies ('0' <= #[trigger] version[i] <= '9'
            || 'a' <= version[i] <= 'z' || 'A' <= version[i] <= 'Z' || signs.contains(
            version[i],
        )) by {
            assert(text::is_alphanumeric(version[i]) || signs.contains(version[i]));
        }
    }
}

proof fn lemma_prints_version(output: Seq<u8>)
    ensures
        probe_text::git_version(output) matches Some(version) ==> prints_version(output, version),
        forall|version: Seq<char>| #[trigger]
            prints_version(output, version) ==> probe_text::git_version(output) == Some(version),
{
    let label = "git version "@;
    let line = scan::trim(decode_utf8(output));
    let rest = line.skip(label.len() as int);
    if scan::begins_with(line, label) {
        lemma_is_version(rest, ".-+()"@);
        assert(line =~= label + rest);
    }
    assert forall|version: Seq<char>| #[trigger] prints_version(output, version) implies
        probe_text::git_version(output) == Some(version) by {
        assert(line.take(label.len() as int) =~= label);
        assert(line.skip(label.len() as int) =~= version);
        lemma_is_version(version, ".-+()"@);
    }
}

/// Git's version is read exactly where Git printed it.
pub proof fn versions_are_read_as_printed(output: &[u8], version: Option<String>)
    requires
        call_ensures(parse_git_version, (output,), version),
    ensures
        version matches Some(version) ==> prints_version(output@, version@),
        version is None ==> forall|other: Seq<char>| !(#[trigger] prints_version(output@, other)),
{
    lemma_prints_version(output@);
}

/// Git is absent without its program, broken where the program fails, healthy where
/// it prints a version, and unknown otherwise; the version is the one printed.
pub proof fn git_is_what_it_prints(facts: &GitFacts, snapshot: BaselineProbeSnapshot)
    requires
        call_ensures(git_snapshot, (facts,), snapshot),
    ensures
        snapshot is Absent <==> !facts.program_found,
        snapshot is Broken <==> facts.program_found && (facts.version matches Ok(output)
            && !output.success),
        snapshot is Present <==> facts.program_found && (facts.version matches Ok(output)
            && output.success && exists|version: Seq<char>| #[trigger]
            prints_version(output.stdout@, version)),
        snapshot matches BaselineProbeSnapshot::Present { version, healthy } ==> healthy && (
        version matches Some(version) && prints_version(facts.version->Ok_0.stdout@, version@)),
        !(snapshot is TailscalePresent),
{
    if let Ok(output) = facts.version {
        lemma_prints_version(output.stdout@);
        if probe_text::git_version(output.stdout@) is Some {
            assert(prints_version(
                output.stdout@,
                probe_text::git_version(output.stdout@)->0,
            ));
        }
    }
}

/// Git is looked for below the system's two directories of programs.
pub proof fn git_is_looked_for_in_two_places(first: bool, second: bool, program: Option<&str>)
    requires
        call_ensures(git_program, (first, second), program),
    ensures
        program is Some <==> first || second,
        first ==> program->0@ == "C:\\Program Files\\Git\\cmd\\git.exe"@,
        !first && second ==> program->0@ == "C:\\Program Files (x86)\\Git\\cmd\\git.exe"@,
{
}

// ---------------------------------------------------------------------------
// Sleep
// ---------------------------------------------------------------------------

/// Whether digits, with a plus before them or without, are worth a number.
pub open spec fn is_number(digits: Seq<char>, value: int) -> bool {
    let bare = if digits.len() > 0 && digits[0] == '+' {
        digits.skip(1)
    } else {
        digits
    };
    bare.len() > 0 && all_digits(bare, 16) && worth_of(bare, 16) == value && value <= 0xffff_ffff
}

/// Whether a text is, apart from margins, `0x` and hexadecimal digits that are worth
/// a number of at most thirty-two bits.
pub open spec fn spells(text: Seq<char>, value: int) -> bool {
    exists|digits: Seq<char>|
        scan::trim(text) == "0x"@ + digits && #[trigger] is_number(digits, value)
}

/// Whether a line is about a setting: apart from margins, it begins with the label.
pub open spec fn is_about(line: Seq<char>, label: Seq<char>, rest: Seq<char>) -> bool {
    scan::trim(line) == label + rest
}

/// Whether every line about a setting gives a number, no two lines are about it, and
/// the number that is given is this one.
pub open spec fn sets(lines: Seq<Seq<char>>, label: Seq<char>, value: Option<int>) -> bool {
    match value {
        None => forall|i: int, rest: Seq<char>|
            0 <= i < lines.len() ==> !(#[trigger] is_about(lines[i], label, rest)),
        Some(value) => exists|at: int, rest: Seq<char>|
            0 <= at < lines.len() && #[trigger] is_about(lines[at], label, rest) && spells(
                rest,
                value,
            ) && forall|i: int, other: Seq<char>|
                0 <= i < lines.len() && #[trigger] is_about(lines[i], label, other) ==> i == at,
    }
}

proof fn lemma_about(line: Seq<char>, label: Seq<char>)
    ensures
        scan::begins_with(scan::trim(line), label) ==> is_about(
            line,
            label,
            scan::trim(line).skip(label.len() as int),
        ),
        forall|rest: Seq<char>| #[trigger]
            is_about(line, label, rest) ==> scan::begins_with(scan::trim(line), label)
                && scan::trim(line).skip(label.len() as int) == rest,
{
    let core = scan::trim(line);
    let n = label.len() as int;
    if scan::begins_with(core, label) {
        assert(core =~= label + core.skip(n));
    }
    assert forall|rest: Seq<char>| #[trigger] is_about(line, label, rest) implies scan::begins_with(
        core,
        label,
    ) && core.skip(n) == rest by {
        assert(core.take(n) =~= label);
        assert(core.skip(n) =~= rest);
    }
}

proof fn lemma_worth_not_negative(digits: Seq<char>)
    requires
        all_digits(digits, 16),
    ensures
        worth_of(digits, 16) >= 0,
    decreases digits.len(),
{
    if digits.len() > 0 {
        let fewer = digits.drop_last();
        assert forall|i: int| 0 <= i < fewer.len() implies text_laws::worth(
            #[trigger] fewer[i],
            16,
        ) >= 0 by {
            assert(fewer[i] == digits[i]);
        }
        lemma_worth_not_negative(fewer);
        assert(text_laws::worth(digits[digits.len() - 1], 16) >= 0);
    }
}

proof fn lemma_spells(rest: Seq<char>)
    ensures
        probe_text::index_value(rest) matches Some(value) ==> spells(rest, value as int),
        forall|value: int| #[trigger]
            spells(rest, value) ==> value >= 0 && probe_text::index_value(rest) == Some(
                value as nat,
            ),
{
    let mark = "0x"@;
    let n = mark.len() as int;
    let core = scan::trim(rest);
    let digits = core.skip(n);
    let bare = if digits.len() > 0 && digits[0] == '+' {
        digits.drop_first()
    } else {
        digits
    };
    text_laws::lemma_worth_of(bare, 16);
    if digits.len() > 0 && digits[0] == '+' {
        assert(digits.skip(1) =~= digits.drop_first());
    }
    if let Some(value) = probe_text::index_value(rest) {
        assert(core =~= mark + digits);
        assert(is_number(digits, value as int));
    }
    assert forall|value: int| #[trigger] spells(rest, value) implies value >= 0
        && probe_text::index_value(rest) == Some(value as nat) by {
        let other = choose|other: Seq<char>|
            core == mark + other && #[trigger] is_number(other, value);
        assert(core.take(n) =~= mark);
        assert(core.skip(n) =~= other);
        lemma_worth_not_negative(bare);
    }
}

proof fn lemma_labels_differ(line: Seq<char>)
    ensures
        !(scan::begins_with(line, "Current AC Power Setting Index:"@) && scan::begins_with(
            line,
            "Current DC Power Setting Index:"@,
        )),
{
    reveal_strlit("Current AC Power Setting Index:");
    reveal_strlit("Current DC Power Setting Index:");
    let ac = "Current AC Power Setting Index:"@;
    let dc = "Current DC Power Setting Index:"@;
    if scan::begins_with(line, ac) && scan::begins_with(line, dc) {
        assert(line.take(ac.len() as int)[8] == line[8]);
        assert(line.take(dc.len() as int)[8] == line[8]);
        assert(ac[8] == 'A' && dc[8] == 'D');
    }
}

spec fn opt(value: Option<nat>) -> Option<int> {
    match value {
        Some(value) => Some(value as int),
        None => None,
    }
}

proof fn lemma_sets_first(
    lines: Seq<Seq<char>>,
    label: Seq<char>,
    rest: Seq<char>,
    value: Option<int>,
)
    requires
        lines.len() > 0,
        is_about(lines[0], label, rest),
    ensures
        sets(lines, label, value) <==> (value matches Some(number) && spells(rest, number) && sets(
            lines.drop_first(),
            label,
            None,
        )),
{
    let tail = lines.drop_first();
    assert forall|i: int| 0 <= i < tail.len() implies (#[trigger] tail[i]) == lines[i + 1] by {}
    lemma_about(lines[0], label);
    if sets(lines, label, value) {
        if let Some(number) = value {
            let (at, other) = choose|at: int, other: Seq<char>|
                0 <= at < lines.len() && #[trigger] is_about(lines[at], label, other) && spells(
                    other,
                    number,
                ) && forall|i: int, third: Seq<char>|
                    0 <= i < lines.len() && #[trigger] is_about(lines[i], label, third) ==> i == at;
            assert(at == 0);
            assert(other == rest);
            assert forall|i: int, third: Seq<char>| 0 <= i < tail.len() implies !(
            #[trigger] is_about(tail[i], label, third)) by {
                if is_about(tail[i], label, third) {
                    assert(is_about(lines[i + 1], label, third));
                }
            }
        }
    }
    if let Some(number) = value {
        if spells(rest, number) && sets(tail, label, None) {
            assert forall|i: int, third: Seq<char>|
                0 <= i < lines.len() && #[trigger] is_about(lines[i], label, third) implies i
                == 0 by {
                if i > 0 {
                    assert(!is_about(tail[i - 1], label, third));
                }
            }
        }
    }
}

proof fn lemma_sets_later(lines: Seq<Seq<char>>, label: Seq<char>, value: Option<int>)
    requires
        lines.len() > 0,
        !scan::begins_with(scan::trim(lines[0]), label),
    ensures
        sets(lines, label, value) <==> sets(lines.drop_first(), label, value),
{
    let tail = lines.drop_first();
    assert forall|i: int| 0 <= i < tail.len() implies (#[trigger] tail[i]) == lines[i + 1] by {}
    lemma_about(lines[0], label);
    match value {
        None => {
            if sets(lines, label, value) {
                assert forall|i: int, rest: Seq<char>| 0 <= i < tail.len() implies !(
                #[trigger] is_about(tail[i], label, rest)) by {
                    assert(!is_about(lines[i + 1], label, rest));
                }
            }
            if sets(tail, label, value) {
                assert forall|i: int, rest: Seq<char>| 0 <= i < lines.len() implies !(
                #[trigger] is_about(lines[i], label, rest)) by {
                    if i > 0 {
                        assert(!is_about(tail[i - 1], label, rest));
                    }
                }
            }
        },
        Some(number) => {
            if sets(lines, label, value) {
                let (at, rest) = choose|at: int, rest: Seq<char>|
                    0 <= at < lines.len() && #[trigger] is_about(lines[at], label, rest) && spells(
                        rest,
                        number,
                    ) && forall|i: int, third: Seq<char>|
                        0 <= i < lines.len() && #[trigger] is_about(lines[i], label, third) ==> i
                            == at;
                assert(is_about(tail[at - 1], label, rest));
                assert forall|i: int, third: Seq<char>|
                    0 <= i < tail.len() && #[trigger] is_about(tail[i], label, third) implies i
                    == at - 1 by {
                    assert(is_about(lines[i + 1], label, third));
                }
            }
            if sets(tail, label, value) {
                let (at, rest) = choose|at: int, rest: Seq<char>|
                    0 <= at < tail.len() && #[trigger] is_about(tail[at], label, rest) && spells(
                        rest,
                        number,
                    ) && forall|i: int, third: Seq<char>|
                        0 <= i < tail.len() && #[trigger] is_about(tail[i], label, third) ==> i
                            == at;
                assert(is_about(lines[at + 1], label, rest));
                assert forall|i: int, third: Seq<char>|
                    0 <= i < lines.len() && #[trigger] is_about(lines[i], label, third) implies i
                    == at + 1 by {
                    if i > 0 {
                        assert(is_about(tail[i - 1], label, third));
                    }
                }
            }
        },
    }
}

/// What reading on comes to, where something was read before.
spec fn read_on(
    lines: Seq<Seq<char>>,
    label: Seq<char>,
    before: Option<nat>,
    after: Option<int>,
) -> bool {
    match before {
        Some(value) => sets(lines, label, None) && after == Some(value as int),
        None => sets(lines, label, after),
    }
}

proof fn lemma_read_on(
    lines: Seq<Seq<char>>,
    label: Seq<char>,
    before: Option<nat>,
    after: Option<int>,
)
    requires
        lines.len() > 0,
    ensures
        !scan::begins_with(scan::trim(lines[0]), label) ==> (read_on(lines, label, before, after)
            <==> read_on(lines.drop_first(), label, before, after)),
        scan::begins_with(scan::trim(lines[0]), label) ==> {
            let rest = scan::trim(lines[0]).skip(label.len() as int);
            read_on(lines, label, before, after) <==> (probe_text::index_value(rest) matches Some(
                value,
            ) && before is None && read_on(lines.drop_first(), label, Some(value), after))
        },
{
    let rest = scan::trim(lines[0]).skip(label.len() as int);
    lemma_about(lines[0], label);
    lemma_spells(rest);
    if scan::begins_with(scan::trim(lines[0]), label) {
        lemma_sets_first(lines, label, rest, after);
        lemma_sets_first(lines, label, rest, None);
    } else {
        lemma_sets_later(lines, label, after);
        lemma_sets_later(lines, label, None);
    }
}

proof fn lemma_settings(
    lines: Seq<Seq<char>>,
    ac: Option<nat>,
    dc: Option<nat>,
    on_ac: Option<int>,
    on_dc: Option<int>,
)
    ensures
        (probe_text::sleep_indices(lines, ac, dc) matches Some((x, y)) && opt(x) == on_ac && opt(y)
            == on_dc) <==> read_on(lines, "Current AC Power Setting Index:"@, ac, on_ac) && read_on(
            lines,
            "Current DC Power Setting Index:"@,
            dc,
            on_dc,
        ),
    decreases lines.len(),
{
    let ac_label = "Current AC Power Setting Index:"@;
    let dc_label = "Current DC Power Setting Index:"@;
    if lines.len() == 0 {
        lemma_empty(lines, ac_label, ac, on_ac);
        lemma_empty(lines, dc_label, dc, on_dc);
    } else {
        let line = scan::trim(lines[0]);
        let tail = lines.drop_first();
        lemma_labels_differ(line);
        lemma_read_on(lines, ac_label, ac, on_ac);
        lemma_read_on(lines, dc_label, dc, on_dc);
        if scan::begins_with(line, ac_label) {
            if let Some(value) = probe_text::index_value(line.skip(ac_label.len() as int)) {
                lemma_settings(tail, Some(value), dc, on_ac, on_dc);
            }
        } else if scan::begins_with(line, dc_label) {
            if let Some(value) = probe_text::index_value(line.skip(dc_label.len() as int)) {
                lemma_settings(tail, ac, Some(value), on_ac, on_dc);
            }
        } else {
            lemma_settings(tail, ac, dc, on_ac, on_dc);
        }
    }
}

proof fn lemma_empty(
    lines: Seq<Seq<char>>,
    label: Seq<char>,
    before: Option<nat>,
    after: Option<int>,
)
    requires
        lines.len() == 0,
    ensures
        read_on(lines, label, before, after) <==> opt(before) == after,
{
}

/// Whether output is text whose lines set the two settings so.
pub open spec fn sets_both(output: Seq<u8>, on_ac: Option<int>, on_dc: Option<int>) -> bool {
    let lines = scan::lines(decode_utf8(output));
    &&& valid_utf8(output)
    &&& sets(lines, "Current AC Power Setting Index:"@, on_ac)
    &&& sets(lines, "Current DC Power Setting Index:"@, on_dc)
}

proof fn lemma_sets_both(output: Seq<u8>)
    ensures
        probe_text::never_sleeps(output) == Some(true) <==> sets_both(output, Some(0), Some(0)),
        probe_text::never_sleeps(output) == Some(false) <==> exists|
            on_ac: int,
            on_dc: Option<int>,
        |
            #[trigger] sets_both(output, Some(on_ac), on_dc) && (on_ac != 0 || on_dc is Some
                && on_dc != Some(0int)),
{
    let lines = scan::lines(decode_utf8(output));
    assert forall|on_ac: Option<int>, on_dc: Option<int>| valid_utf8(output) implies (
    #[trigger] sets_both(output, on_ac, on_dc)) == (probe_text::sleep_indices(lines, None, None)
        matches Some((x, y)) && opt(x) == on_ac && opt(y) == on_dc) by {
        lemma_settings(lines, None, None, on_ac, on_dc);
    }
    if valid_utf8(output) {
        if let Some((x, y)) = probe_text::sleep_indices(lines, None, None) {
            assert(sets_both(output, opt(x), opt(y)));
            if let Some(ac) = x {
                assert(sets_both(output, Some(ac as int), opt(y)));
            }
        }
    }
}

/// A machine never sleeps exactly where its output sets both settings to zero. It
/// sleeps where the setting on mains is another number, or that on battery is; where
/// a line cannot be read, one is missing that matters or one comes twice, nothing is
/// known.
pub proof fn machines_never_sleep_at_zero(output: &[u8], healthy: Option<bool>)
    requires
        call_ensures(parse_sleep_posture, (output,), healthy),
    ensures
        healthy == Some(true) <==> sets_both(output@, Some(0), Some(0)),
        healthy == Some(false) <==> exists|on_ac: int, on_dc: Option<int>|
            #[trigger] sets_both(output@, Some(on_ac), on_dc) && (on_ac != 0 || on_dc is Some
                && on_dc != Some(0int)),
{
    lemma_sets_both(output@);
}

/// The probe of sleep reports what the settings say, and nothing where they could not
/// be asked.
pub proof fn sleep_is_what_the_settings_say(facts: &SleepFacts, snapshot: BaselineProbeSnapshot)
    requires
        call_ensures(sleep_snapshot, (facts,), snapshot),
    ensures
        snapshot@ == (SnapshotModel::Present { version: None, healthy: true }) <==> {
            &&& facts.system_known
            &&& facts.settings matches Ok(output) && output.success && sets_both(
                output.stdout@,
                Some(0),
                Some(0),
            )
        },
        snapshot@ == (SnapshotModel::Present { version: None, healthy: false }) <==> {
            &&& facts.system_known
            &&& facts.settings matches Ok(output) && output.success && exists|
                on_ac: int,
                on_dc: Option<int>,
            |
                #[trigger] sets_both(output.stdout@, Some(on_ac), on_dc) && (on_ac != 0 || on_dc
                    is Some && on_dc != Some(0int))
        },
        snapshot is Present || snapshot is Unknowable,
        snapshot matches BaselineProbeSnapshot::Present { version, .. } ==> version is None,
{
    if let Ok(output) = facts.settings {
        lemma_sets_both(output.stdout@);
    }
}

// ---------------------------------------------------------------------------
// The SSH server
// ---------------------------------------------------------------------------

/// Whether a path may name a file of keys: at most a kibibyte of printable characters
/// without space, and not `none`.
pub open spec fn may_name_keys(path: Seq<char>) -> bool {
    &&& encode_utf8(path).len() <= 1024
    &&& forall|i: int| 0 <= i < path.len() ==> '!' <= #[trigger] path[i] <= '~'
    &&& path != "none"@
}

/// Whether exactly one line begins with a word, and these are the fields of that line.
pub open spec fn only_line(output: Seq<char>, word: Seq<char>, fields: Seq<Seq<char>>) -> bool {
    let lines = scan::lines(output);
    exists|at: int|
        0 <= at < lines.len() && scan::fields(#[trigger] lines[at]) == fields && fields.len() > 0
            && fields[0] == word && forall|i: int|
            0 <= i < lines.len() && scan::fields(#[trigger] lines[i])[0] == word ==> i == at
}

/// Whether a server's output configures this: at most 64 KiB of text without blank
/// lines, one line that says `yes` or `no` of keys, and one that names files of which
/// at least one may name keys.
pub open spec fn configures(output: Seq<u8>, accepts: bool, files: Seq<Seq<char>>) -> bool {
    let said = decode_utf8(output);
    let lines = scan::lines(said);
    &&& output.len() <= 65536
    &&& valid_utf8(output)
    &&& forall|i: int| 0 <= i < lines.len() ==> scan::fields(#[trigger] lines[i]).len() > 0
    &&& only_line(
        said,
        "publickeyauthentication"@,
        seq![
            "publickeyauthentication"@,
            if accepts {
                "yes"@
            } else {
                "no"@
            },
        ],
    )
    &&& exists|fields: Seq<Seq<char>>| #[trigger]
        only_line(said, "authorizedkeysfile"@, fields) && files == fields.skip(1).filter(
            |path: Seq<char>| may_name_keys(path),
        )
    &&& files.len() > 0
}

proof fn lemma_may_name(path: Seq<char>)
    ensures
        sshd_config::acceptable_path(path) == may_name_keys(path),
{
    if text::all_graphic(path) {
        assert forall|i: int| 0 <= i < path.len() implies '!' <= #[trigger] path[i] <= '~' by {
            assert(text::is_graphic(path[i]));
        }
    }
    if may_name_keys(path) {
        assert forall|i: int| 0 <= i < path.len() implies text::is_graphic(#[trigger] path[i]) by {
            assert('!' <= path[i] <= '~');
        }
    }
}

proof fn lemma_filter(paths: Seq<Seq<char>>)
    ensures
        sshd_config::acceptable_paths(paths) == paths.filter(
            |path: Seq<char>| may_name_keys(path),
        ),
    decreases paths.len(),
{
    let keep = |path: Seq<char>| may_name_keys(path);
    if paths.len() == 0 {
        reveal(Seq::filter);
        assert(paths.filter(keep) =~= seq![]);
    } else {
        let tail = paths.drop_first();
        lemma_may_name(paths[0]);
        lemma_filter(tail);
        assert(paths =~= seq![paths[0]] + tail);
        Seq::filter_distributes_over_add(seq![paths[0]], tail, keep);
        let one = seq![paths[0]];
        assert(one.filter(keep) =~= if keep(paths[0]) {
            seq![paths[0]]
        } else {
            seq![]
        }) by {
            reveal(Seq::filter);
            assert(one.drop_last() =~= seq![]);
            let none: Seq<Seq<char>> = seq![];
            assert(none.filter(keep) =~= none);
        }
        if !keep(paths[0]) {
            assert(Seq::<Seq<char>>::empty() + tail.filter(keep) =~= tail.filter(keep));
        }
    }
}

proof fn lemma_none_named(rows: Seq<Seq<Seq<char>>>, name: Seq<char>)
    ensures
        sshd_config::rows_named(rows, name).len() == 0 <==> forall|i: int|
            0 <= i < rows.len() ==> (#[trigger] rows[i])[0] != name,
    decreases rows.len(),
{
    if rows.len() > 0 {
        let tail = rows.drop_first();
        lemma_none_named(tail, name);
        assert forall|i: int| 0 <= i < tail.len() implies (#[trigger] tail[i]) == rows[i + 1] by {}
        if rows[0][0] != name && (forall|i: int|
            0 <= i < tail.len() ==> (#[trigger] tail[i])[0] != name) {
            assert forall|i: int| 0 <= i < rows.len() implies (#[trigger] rows[i])[0] != name by {
                if i > 0 {
                    assert(tail[i - 1][0] != name);
                }
            }
        }
        if forall|i: int| 0 <= i < rows.len() ==> (#[trigger] rows[i])[0] != name {
            assert forall|i: int| 0 <= i < tail.len() implies (#[trigger] tail[i])[0] != name by {
                assert(rows[i + 1][0] != name);
            }
        }
    }
}

spec fn only_row(rows: Seq<Seq<Seq<char>>>, name: Seq<char>, at: int) -> bool {
    &&& 0 <= at < rows.len()
    &&& rows[at][0] == name
    &&& forall|i: int| 0 <= i < rows.len() && (#[trigger] rows[i])[0] == name ==> i == at
}

proof fn lemma_only_row(rows: Seq<Seq<Seq<char>>>, name: Seq<char>)
    ensures
        sshd_config::rows_named(rows, name).len() == 1 ==> exists|at: int| #[trigger]
            only_row(rows, name, at) && rows[at] == sshd_config::rows_named(rows, name)[0],
        forall|at: int| #[trigger]
            only_row(rows, name, at) ==> sshd_config::rows_named(rows, name) == seq![rows[at]],
    decreases rows.len(),
{
    let found = sshd_config::rows_named(rows, name);
    if rows.len() > 0 {
        let tail = rows.drop_first();
        lemma_only_row(tail, name);
        lemma_none_named(tail, name);
        assert forall|i: int| 0 <= i < tail.len() implies (#[trigger] tail[i]) == rows[i + 1] by {}
        if found.len() == 1 {
            if rows[0][0] == name {
                assert(sshd_config::rows_named(tail, name).len() == 0);
                assert forall|i: int| 0 <= i < rows.len() && (#[trigger] rows[i])[0] == name
                    implies i == 0 by {
                    if i > 0 {
                        assert(tail[i - 1][0] != name);
                    }
                }
                assert(only_row(rows, name, 0));
            } else {
                let at = choose|at: int| #[trigger]
                    only_row(tail, name, at) && tail[at] == sshd_config::rows_named(tail, name)[0];
                assert forall|i: int| 0 <= i < rows.len() && (#[trigger] rows[i])[0] == name
                    implies i == at + 1 by {
                    if i > 0 {
                        assert(tail[i - 1][0] == name);
                    }
                }
                assert(only_row(rows, name, at + 1));
            }
        }
        assert forall|at: int| #[trigger] only_row(rows, name, at) implies found == seq![
            rows[at],
        ] by {
            if at == 0 {
                assert forall|i: int| 0 <= i < tail.len() implies (#[trigger] tail[i])[0]
                    != name by {
                    if tail[i][0] == name {
                        assert(rows[i + 1][0] == name);
                    }
                }
                assert(found =~= seq![rows[0]]);
            } else {
                assert(rows[0][0] != name);
                assert forall|i: int| 0 <= i < tail.len() && (#[trigger] tail[i])[0] == name
                    implies i == at - 1 by {
                    assert(rows[i + 1][0] == name);
                }
                assert(only_row(tail, name, at - 1));
            }
        }
    }
}

proof fn lemma_only_line(output: Seq<char>, word: Seq<char>)
    requires
        forall|i: int|
            0 <= i < scan::lines(output).len() ==> scan::fields(
                #[trigger] scan::lines(output)[i],
            ).len() > 0,
    ensures
        sshd_config::rows_named(sshd_config::rows(output), word).len() == 1 ==> only_line(
            output,
            word,
            sshd_config::rows_named(sshd_config::rows(output), word)[0],
        ),
        forall|fields: Seq<Seq<char>>| #[trigger]
            only_line(output, word, fields) ==> sshd_config::rows_named(
                sshd_config::rows(output),
                word,
            ) == seq![fields],
{
    let lines = scan::lines(output);
    let rows = sshd_config::rows(output);
    assert forall|i: int| 0 <= i < lines.len() implies (#[trigger] rows[i]) == scan::fields(
        lines[i],
    ) by {}
    lemma_only_row(rows, word);
    let found = sshd_config::rows_named(rows, word);
    if found.len() == 1 {
        let at = choose|at: int| #[trigger] only_row(rows, word, at) && rows[at] == found[0];
        assert(scan::fields(lines[at]) == found[0]);
        assert forall|i: int| 0 <= i < lines.len() && scan::fields(#[trigger] lines[i])[0]
            == word implies i == at by {
            assert(rows[i][0] == word);
        }
    }
    assert forall|fields: Seq<Seq<char>>| #[trigger] only_line(output, word, fields) implies found
        == seq![fields] by {
        let at = choose|at: int|
            0 <= at < lines.len() && scan::fields(#[trigger] lines[at]) == fields && fields.len()
                > 0 && fields[0] == word && forall|i: int|
                0 <= i < lines.len() && scan::fields(#[trigger] lines[i])[0] == word ==> i == at;
        assert forall|i: int| 0 <= i < rows.len() && (#[trigger] rows[i])[0] == word implies i
            == at by {
            assert(scan::fields(lines[i])[0] == word);
        }
        assert(only_row(rows, word, at));
    }
}

proof fn lemma_configures(output: Seq<u8>)
    ensures
        sshd_config::effective_config(output) matches Some(config) ==> configures(
            output,
            config.0,
            config.1,
        ),
        forall|accepts: bool, files: Seq<Seq<char>>| #[trigger]
            configures(output, accepts, files) ==> sshd_config::effective_config(output) == Some(
                (accepts, files),
            ),
{
    reveal_strlit("yes");
    reveal_strlit("no");
    assert("yes"@.len() == 3 && "no"@.len() == 2);
    let said = decode_utf8(output);
    let lines = scan::lines(said);
    let rows = sshd_config::rows(said);
    assert forall|i: int| 0 <= i < lines.len() implies (#[trigger] rows[i]) == scan::fields(
        lines[i],
    ) by {}
    let keys = "publickeyauthentication"@;
    let names = "authorizedkeysfile"@;
    let authentication = sshd_config::rows_named(rows, keys);
    let files = sshd_config::rows_named(rows, names);
    if let Some(config) = sshd_config::effective_config(output) {
        assert forall|i: int| 0 <= i < lines.len() implies scan::fields(#[trigger] lines[i]).len()
            > 0 by {
            assert(rows[i].len() > 0);
        }
        lemma_only_line(said, keys);
        lemma_only_line(said, names);
        lemma_filter(files[0].skip(1));
        let wanted = seq![
            keys,
            if config.0 {
                "yes"@
            } else {
                "no"@
            },
        ];
        assert(only_line(said, keys, authentication[0]));
        assert(authentication[0][0] == keys);
        assert(authentication[0] =~= wanted);
        assert(only_line(said, names, files[0]));
    }
    assert forall|accepts: bool, paths: Seq<Seq<char>>| #[trigger]
        configures(output, accepts, paths) implies sshd_config::effective_config(output) == Some(
        (accepts, paths),
    ) by {
        assert forall|i: int| 0 <= i < rows.len() implies (#[trigger] rows[i]).len() > 0 by {
            assert(scan::fields(lines[i]).len() > 0);
        }
        lemma_only_line(said, keys);
        lemma_only_line(said, names);
        let fields = choose|fields: Seq<Seq<char>>| #[trigger]
            only_line(said, names, fields) && paths == fields.skip(1).filter(
                |path: Seq<char>| may_name_keys(path),
            );
        assert(files == seq![fields]);
        assert(files[0] == fields);
        lemma_filter(fields.skip(1));
        let wanted = seq![
            keys,
            if accepts {
                "yes"@
            } else {
                "no"@
            },
        ];
        assert(authentication == seq![wanted]);
        assert(authentication[0] == wanted);
        assert(wanted.len() == 2 && wanted[1] == if accepts {
            "yes"@
        } else {
            "no"@
        });
    }
}

/// A server's configuration is read exactly where its output configures it.
pub proof fn configurations_are_read_as_printed(
    output: &[u8],
    config: Option<EffectiveSshdConfig>,
)
    requires
        call_ensures(parse_effective_sshd_config, (output,), config),
    ensures
        config matches Some(config) ==> configures(
            output@,
            config.accepts_keys(),
            config.key_files(),
        ),
        config is None ==> forall|accepts: bool, files: Seq<Seq<char>>|
            !(#[trigger] configures(output@, accepts, files)),
{
    lemma_configures(output@);
}

/// Whether everything that is asked about the SSH server was answered.
pub open spec fn server_is_known(facts: SshServerFacts) -> bool {
    &&& facts.system_known
    &&& facts.program_is_file
    &&& facts.service matches Ok(output) && (prints(output.stdout@, "RUNNING"@) || prints(
        output.stdout@,
        "STOPPED"@,
    ))
    &&& facts.user_known
    &&& facts.configuration matches Ok(output) && output.success && exists|
        accepts: bool,
        files: Seq<Seq<char>>,
    | #[trigger]
        configures(output.stdout@, accepts, files)
    &&& facts.profile is Some
}

/// The SSH server is reported present exactly where everything that is asked about it
/// was answered, and healthy exactly where besides its service says `RUNNING`, it is
/// configured to accept keys, and the user's keys let the controller in. It is absent
/// exactly where the system is known and its program is not there.
pub proof fn servers_are_healthy_where_they_run_and_let_in(
    facts: &SshServerFacts,
    required: &[String],
    snapshot: BaselineProbeSnapshot,
)
    requires
        call_ensures(ssh_server_snapshot, (facts, required), snapshot),
    ensures
        snapshot is Present <==> server_is_known(*facts),
        snapshot is Absent <==> facts.system_known && !facts.program_is_file,
        snapshot is Present || snapshot is Absent || snapshot is Unknowable,
        snapshot matches BaselineProbeSnapshot::Present { version, healthy } ==> {
            &&& version is None
            &&& healthy ==> prints(facts.service->Ok_0.stdout@, "RUNNING"@)
            &&& healthy <==> prints(facts.service->Ok_0.stdout@, "RUNNING"@) && exists|
                files: Seq<Seq<char>>,
            | #[trigger]
                configures(facts.configuration->Ok_0.stdout@, true, files) && lets_in(
                    facts.key_directory,
                    files,
                    facts.key_files@,
                    required@,
                )
        },
{
    if let Ok(service) = facts.service {
        lemma_holds(decode_utf8(service.stdout@), "RUNNING"@);
        lemma_holds(decode_utf8(service.stdout@), "STOPPED"@);
    }
    if let Ok(output) = facts.configuration {
        lemma_configures(output.stdout@);
        if let Some((accepts, files)) = sshd_config::effective_config(output.stdout@) {
            assert(configures(output.stdout@, accepts, files));
            if let Some(profile) = facts.profile {
                lemma_lets_in(profile@, facts.key_directory, files, facts.key_files@, required@);
            }
        }
    }
}

/// A server that does not run is never called healthy, and one that runs and is
/// called unhealthy is so whatever its service says.
pub proof fn stopped_servers_are_not_healthy(
    facts: &SshServerFacts,
    other: &SshServerFacts,
    required: &[String],
    snapshot: BaselineProbeSnapshot,
    other_snapshot: BaselineProbeSnapshot,
)
    requires
        call_ensures(ssh_server_snapshot, (facts, required), snapshot),
        call_ensures(ssh_server_snapshot, (other, required), other_snapshot),
        other.service matches Ok(output) && prints(output.stdout@, "RUNNING"@),
        facts.service matches Ok(output) && prints(output.stdout@, "STOPPED"@) && !prints(
            output.stdout@,
            "RUNNING"@,
        ),
        facts.system_known == other.system_known,
        facts.program_is_file == other.program_is_file,
        facts.user_known == other.user_known,
        facts.configuration == other.configuration,
        facts.profile == other.profile,
        facts.key_directory == other.key_directory,
        facts.key_files == other.key_files,
    ensures
        snapshot is Present <==> other_snapshot is Present,
        !(snapshot matches BaselineProbeSnapshot::Present { healthy: true, .. }),
{
    servers_are_healthy_where_they_run_and_let_in(facts, required, snapshot);
    servers_are_healthy_where_they_run_and_let_in(other, required, other_snapshot);
}

/// The server is asked about the user as one who comes from the machine itself.
pub proof fn servers_are_asked_about_local_users(user: &str, context: String)
    requires
        call_ensures(ssh_match_context, (user,), context),
    ensures
        context@ == "user="@ + user@ + ",host=localhost,addr=127.0.0.1"@,
{
}

// ---------------------------------------------------------------------------
// Tailscale
// ---------------------------------------------------------------------------

/// The mode that a word asks for; no word asks for the usual one.
pub open spec fn asks_for(word: Seq<char>, usual: BaselineTailscaleMode, mode: BaselineTailscaleMode) -> bool {
    ||| word.len() == 0 && mode == usual
    ||| word == "gui"@ && mode == BaselineTailscaleMode::Gui
    ||| word == "tailscaled"@ && mode == BaselineTailscaleMode::Tailscaled
    ||| word == "service"@ && mode == BaselineTailscaleMode::Service
}

proof fn lemma_asks_for(word: Seq<char>, usual: BaselineTailscaleMode)
    ensures
        forall|mode: BaselineTailscaleMode|
            #![trigger asks_for(word, usual, mode)]
            baseline::requested(word, usual) == Some(mode) <==> asks_for(word, usual, mode),
{
    reveal_strlit("");
    reveal_strlit("gui");
    reveal_strlit("tailscaled");
    reveal_strlit("service");
    assert("gui"@.len() == 3 && "tailscaled"@.len() == 10 && "service"@.len() == 7);
    assert(""@.len() == 0);
    if word.len() == 0 {
        assert(word =~= ""@);
    }
}

/// What the values of a status say: there is a judgement exactly where the state is a
/// text, it is told whether Tailscale is online where the state is `Running`, and the
/// mode that is asked for is known. Tailscale is healthy exactly where it is
/// `Running`, online, stays so, and runs in the mode that is asked for. The version is
/// passed on where it is a text of one to ninety-six letters, digits, dots, hyphens
/// and pluses.
pub open spec fn judges(
    state: Option<ScalarModel>,
    online: Option<ScalarModel>,
    version: Option<ScalarModel>,
    posture: BaselineTailscalePosture,
    word: Seq<char>,
    usual: BaselineTailscaleMode,
    snapshot: Option<SnapshotModel>,
) -> bool {
    let known = (state matches Some(ScalarModel::Text(text)) && (text == "Running"@ ==> online
        matches Some(ScalarModel::Truth(_)))) && exists|mode: BaselineTailscaleMode| #[trigger]
        asks_for(word, usual, mode);
    let healthy = state == Some(ScalarModel::Text("Running"@)) && online == Some(
        ScalarModel::Truth(true),
    ) && posture.persistent && asks_for(word, usual, posture.mode);
    &&& snapshot is Some <==> known
    &&& snapshot matches Some(snapshot) ==> {
        &&& snapshot matches SnapshotModel::TailscalePresent {
            version: passed,
            healthy: said,
            posture: kept,
        } && said == healthy && kept == posture && match version {
            Some(ScalarModel::Text(text)) => passed == if is_version(text, seq!['.', '-', '+']) {
                Some(text)
            } else {
                None
            },
            _ => passed is None,
        }
    }
}

proof fn lemma_judges(
    state: Option<ScalarModel>,
    online: Option<ScalarModel>,
    version: Option<ScalarModel>,
    posture: BaselineTailscalePosture,
    word: Seq<char>,
    usual: BaselineTailscaleMode,
)
    ensures
        judges(
            state,
            online,
            version,
            posture,
            word,
            usual,
            baseline::status_snapshot(state, online, version, posture, word, usual),
        ),
{
    reveal_strlit(".-+");
    assert(".-+"@ =~= seq!['.', '-', '+']);
    lemma_asks_for(word, usual);
    assert(asks_for(word, usual, posture.mode) <==> baseline::requested(word, usual) == Some(
        posture.mode,
    ));
    if let Some(mode) = baseline::requested(word, usual) {
        assert(asks_for(word, usual, mode));
    }
    if let Some(ScalarModel::Text(text)) = version {
        lemma_is_version(text, ".-+"@);
    }
}

/// Tailscale's status is judged by what it says.
pub proof fn statuses_are_judged_by_what_they_say(
    state: Option<JsonScalar>,
    online: Option<JsonScalar>,
    version: Option<JsonScalar>,
    posture: BaselineTailscalePosture,
    word: &str,
    usual: BaselineTailscaleMode,
    snapshot: Option<BaselineProbeSnapshot>,
)
    requires
        call_ensures(
            judge_tailscale_status,
            (state, online, version, posture, word, usual),
            snapshot,
        ),
    ensures
        judges(
            baseline::scalar_model(state),
            baseline::scalar_model(online),
            baseline::scalar_model(version),
            posture,
            word@,
            usual,
            baseline::optional_snapshot(snapshot),
        ),
{
    lemma_judges(
        baseline::scalar_model(state),
        baseline::scalar_model(online),
        baseline::scalar_model(version),
        posture,
        word@,
        usual,
    );
}

/// What is read of a status are its state, whether it is online, and its version.
pub proof fn statuses_are_read_at_three_places(
    bytes: &[u8],
    mode: BaselineTailscaleMode,
    persistent: bool,
    unattended: bool,
    word: &str,
    usual: BaselineTailscaleMode,
    snapshot: Option<BaselineProbeSnapshot>,
)
    requires
        call_ensures(
            tailscale_status_snapshot,
            (bytes, mode, persistent, unattended, word, usual),
            snapshot,
        ),
    ensures
        judges(
            baseline::json_at(bytes@, "/BackendState"@),
            baseline::json_at(bytes@, "/Self/Online"@),
            baseline::json_at(bytes@, "/Version"@),
            BaselineTailscalePosture { mode, persistent, unattended },
            word@,
            usual,
            baseline::optional_snapshot(snapshot),
        ),
{
    lemma_judges(
        baseline::json_at(bytes@, "/BackendState"@),
        baseline::json_at(bytes@, "/Self/Online"@),
        baseline::json_at(bytes@, "/Version"@),
        BaselineTailscalePosture { mode, persistent, unattended },
        word@,
        usual,
    );
}

/// Whether a service says that it runs and that it starts with the machine.
pub open spec fn keeps_running(facts: TailscaleFacts) -> bool {
    &&& facts.service matches Ok(output) && output.success && prints(output.stdout@, "RUNNING"@)
    &&& facts.start matches Ok(output) && output.success && valid_utf8(output.stdout@) && exists|
        value: Seq<char>,
    | #[trigger]
        says_once(scan::lines(decode_utf8(output.stdout@)), "START_TYPE"@, value) && value.len() > 0
            && value[0] == '2' && holds(value, "AUTO_START"@)
}

proof fn lemma_keeps_running(facts: TailscaleFacts)
    ensures
        baseline::stays_running(facts) == keeps_running(facts),
{
    if let Ok(output) = facts.service {
        lemma_holds(decode_utf8(output.stdout@), "RUNNING"@);
    }
    if let Ok(output) = facts.start {
        let lines = scan::lines(decode_utf8(output.stdout@));
        lemma_says_once(lines, "START_TYPE"@);
        let values = probe_text::all_labelled(lines, "START_TYPE"@);
        if values.len() == 1 {
            lemma_holds(values[0], "AUTO_START"@);
            assert(says_once(lines, "START_TYPE"@, values[0]));
        }
        assert forall|value: Seq<char>| #[trigger] says_once(lines, "START_TYPE"@, value) implies
            values.len() == 1 && values[0] == value by {
            assert(values == seq![value]);
        }
    }
}

/// Tailscale is absent exactly where its program is not there. Where it is, and the
/// system is known and the status was printed, the status is judged, as that of a
/// service that persists exactly where it says that it runs and starts with the
/// machine; otherwise nothing is known.
pub proof fn tailscale_is_what_its_status_says(
    facts: &TailscaleFacts,
    word: &str,
    snapshot: BaselineProbeSnapshot,
)
    requires
        call_ensures(tailscale_snapshot, (facts, word), snapshot),
    ensures
        snapshot is Absent <==> !facts.program_is_file,
        snapshot is Absent || snapshot is Unknowable || snapshot is TailscalePresent,
        facts.program_is_file && !(facts.system_known && facts.status is Ok
            && facts.status->Ok_0.success) ==> snapshot is Unknowable,
        facts.program_is_file && facts.system_known && (facts.status matches Ok(output)
            && output.success) ==> {
            let bytes = facts.status->Ok_0.stdout@;
            judges(
                baseline::json_at(bytes, "/BackendState"@),
                baseline::json_at(bytes, "/Self/Online"@),
                baseline::json_at(bytes, "/Version"@),
                BaselineTailscalePosture {
                    mode: BaselineTailscaleMode::Service,
                    persistent: keeps_running(*facts),
                    unattended: facts.unattended,
                },
                word@,
                BaselineTailscaleMode::Service,
                if snapshot is Unknowable {
                    None
                } else {
                    Some(snapshot@)
                },
            )
        },
{
    lemma_keeps_running(*facts);
    if let Ok(output) = facts.status {
        lemma_judges(
            baseline::json_at(output.stdout@, "/BackendState"@),
            baseline::json_at(output.stdout@, "/Self/Online"@),
            baseline::json_at(output.stdout@, "/Version"@),
            BaselineTailscalePosture {
                mode: BaselineTailscaleMode::Service,
                persistent: keeps_running(*facts),
                unattended: facts.unattended,
            },
            word@,
            BaselineTailscaleMode::Service,
        );
    }
}

/// Every probe is judged as its own kind, with the keys and the mode that were asked
/// for; a worker's own program is never there, and what is put off is not known.
pub proof fn probes_are_judged_by_their_kind(
    probe: &BaselineProbe,
    keys: &[String],
    word: &str,
    snapshot: BaselineProbeSnapshot,
)
    requires
        call_ensures(baseline_probe_snapshot, (probe, keys, word), snapshot),
    ensures
        match *probe {
            BaselineProbe::SshServer(facts) => forall|other: BaselineProbeSnapshot|
                call_ensures(ssh_server_snapshot, (&facts, keys), other) ==> #[trigger] other@
                    == snapshot@,
            BaselineProbe::Tailscale(facts) => forall|other: BaselineProbeSnapshot|
                call_ensures(tailscale_snapshot, (&facts, word), other) ==> #[trigger] other@
                    == snapshot@,
            BaselineProbe::Git(facts) => forall|other: BaselineProbeSnapshot|
                call_ensures(git_snapshot, (&facts,), other) ==> #[trigger] other@ == snapshot@,
            BaselineProbe::SleepPolicy(facts) => forall|other: BaselineProbeSnapshot|
                call_ensures(sleep_snapshot, (&facts,), other) ==> #[trigger] other@ == snapshot@,
            BaselineProbe::Styrnd => snapshot is Absent,
            BaselineProbe::Deferred => snapshot is Unknowable,
        },
{
}

/// The status of a service is judged as that of one, with what is known of how it is run.
pub proof fn services_are_judged_as_services(
    bytes: &[u8],
    persistent: bool,
    unattended: bool,
    word: &str,
    snapshot: Option<BaselineProbeSnapshot>,
)
    requires
        call_ensures(
            baseline::parse_tailscale_status,
            (bytes, persistent, unattended, word),
            snapshot,
        ),
    ensures
        judges(
            baseline::json_at(bytes@, "/BackendState"@),
            baseline::json_at(bytes@, "/Self/Online"@),
            baseline::json_at(bytes@, "/Version"@),
            BaselineTailscalePosture {
                mode: BaselineTailscaleMode::Service,
                persistent,
                unattended,
            },
            word@,
            BaselineTailscaleMode::Service,
            baseline::optional_snapshot(snapshot),
        ),
{
    lemma_judges(
        baseline::json_at(bytes@, "/BackendState"@),
        baseline::json_at(bytes@, "/Self/Online"@),
        baseline::json_at(bytes@, "/Version"@),
        BaselineTailscalePosture { mode: BaselineTailscaleMode::Service, persistent, unattended },
        word@,
        BaselineTailscaleMode::Service,
    );
}

} // verus!
