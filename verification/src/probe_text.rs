//! What the tools that are asked about a machine print.

use crate::number;
use crate::number::parse_unsigned;
use crate::scan;
use crate::scan::{contains_text, split_lines, strip_prefix, trimmed};
use crate::text;
use crate::text::{decode_chars, is_all_in_word_set, spells, string_of};
use vstd::prelude::*;
use vstd::slice::slice_subrange;

verus! {

/// The longest output from which a version is read.
pub const MAX_VERSION_OUTPUT: usize = 256;

/// The longest version that is reported.
pub const MAX_VERSION_LENGTH: usize = 96;

/// Whether a text is a version that may be reported.
pub open spec fn is_version(version: Seq<char>, extra: Seq<char>) -> bool {
    0 < version.len() <= MAX_VERSION_LENGTH && text::all_in_word_set(version, extra)
}

/// Whether a text is a version that may be reported.
pub fn version_is_reportable(version: &[char], extra: &str) -> (holds: bool)
    ensures
        holds == is_version(version@, extra@),
{
    version.len() > 0 && version.len() <= MAX_VERSION_LENGTH && is_all_in_word_set(version, extra)
}

/// The version that `git --version` prints.
pub open spec fn git_version(bytes: Seq<u8>) -> Option<Seq<char>> {
    if bytes.len() > MAX_VERSION_OUTPUT {
        None
    } else {
        match text::decoded(bytes) {
            None => None,
            Some(output) => {
                let line = scan::trim(output);
                let version = line.skip("git version "@.len() as int);
                if scan::begins_with(line, "git version "@) && is_version(version, ".-+()"@) {
                    Some(version)
                } else {
                    None
                }
            },
        }
    }
}

/// Reads the version that `git --version` prints.
pub fn parse_git_version(bytes: &[u8]) -> (version: Option<String>)
    ensures
        text::optional_text(version) == git_version(bytes@),
{
    if bytes.len() > MAX_VERSION_OUTPUT {
        return None;
    }
    let output = match decode_chars(bytes) {
        Some(output) => output,
        None => {
            return None;
        },
    };
    let line = trimmed(&output);
    match strip_prefix(line, "git version ") {
        None => None,
        Some(version) => {
            if !version_is_reportable(version, ".-+()") {
                return None;
            }
            Some(string_of(version))
        },
    }
}

/// Whether a registry value says that a service always runs unattended.
pub open spec fn says_always(value: Seq<u16>) -> bool {
    value == crate::layout::ascii_units("always"@).push(0)
}

/// Reads a registry value: exactly `always`, with its terminator.
pub fn parse_tailscale_unattended_policy_value(value: &[u16]) -> (always: bool)
    ensures
        always == says_always(value@),
{
    proof {
        reveal_strlit("always");
    }
    let ghost expected = crate::layout::ascii_units("always"@).push(0);
    assert(expected =~= seq![97u16, 108u16, 119u16, 97u16, 121u16, 115u16, 0u16]);
    let units = [97u16, 108u16, 119u16, 97u16, 121u16, 115u16, 0u16];
    assert(units@ =~= expected);
    crate::windows_path::same_units(value, &units)
}

/// The number of the registry's root for the machine.
pub const HKEY_LOCAL_MACHINE: isize = -2_147_483_646;

/// The type of a registry value that is a text.
pub const REG_SZ: u32 = 1;

/// Whether a registry query found that a service always runs unattended. The
/// query writes at most as many units as `value` holds.
pub fn tailscale_unattended_policy_is_always(
    status: u32,
    value_type: u32,
    byte_count: u32,
    value: &[u16],
) -> (always: bool)
    ensures
        always == (status == 0 && value_type == REG_SZ && byte_count != 0 && byte_count % 2 == 0
            && byte_count / 2 <= value@.len() && says_always(
            value@.take((byte_count / 2) as int),
        )),
{
    if status != 0 || value_type != REG_SZ || byte_count == 0 || byte_count % 2 != 0 {
        return false;
    }
    let units: usize = (byte_count / 2) as usize;
    if units > value.len() {
        return false;
    }
    let written = slice_subrange(value, 0, units);
    assert(written@ =~= value@.take(units as int));
    parse_tailscale_unattended_policy_value(written)
}

/// Whether a service is said to run.
pub open spec fn service_running(bytes: Seq<u8>) -> Option<bool> {
    match text::decoded(bytes) {
        None => None,
        Some(output) => if scan::occurs(output, "RUNNING"@) {
            Some(true)
        } else if scan::occurs(output, "STOPPED"@) {
            Some(false)
        } else {
            None
        },
    }
}

/// Reads whether a service is said to run.
pub fn parse_sshd_service_running(bytes: &[u8]) -> (running: Option<bool>)
    ensures
        running == service_running(bytes@),
{
    match decode_chars(bytes) {
        None => None,
        Some(output) => {
            if contains_text(&output, "RUNNING") {
                Some(true)
            } else if contains_text(&output, "STOPPED") {
                Some(false)
            } else {
                None
            }
        },
    }
}

/// What a line says under a label, where it has that label.
pub open spec fn labelled(line: Seq<char>, label: Seq<char>) -> Option<Seq<char>> {
    let at = scan::until(line, ':') as int;
    if at < line.len() && scan::trim(line.take(at)) == label {
        Some(scan::trim(line.skip(at + 1)))
    } else {
        None
    }
}

/// What the lines say under a label, in their order.
pub open spec fn all_labelled(lines: Seq<Seq<char>>, label: Seq<char>) -> Seq<Seq<char>>
    decreases lines.len(),
{
    if lines.len() == 0 {
        seq![]
    } else {
        let before = all_labelled(lines.drop_last(), label);
        match labelled(lines.last(), label) {
            Some(value) => before.push(value),
            None => before,
        }
    }
}

/// Whether a service is said to start with the machine: its start type is stated
/// once, as the automatic one.
pub open spec fn service_auto_start(bytes: Seq<u8>) -> Option<bool> {
    match text::decoded(bytes) {
        None => None,
        Some(output) => {
            let values = all_labelled(scan::lines(output), "START_TYPE"@);
            if values.len() != 1 {
                None
            } else {
                Some(
                    values[0].len() > 0 && values[0][0] == '2' && scan::occurs(
                        values[0],
                        "AUTO_START"@,
                    ),
                )
            }
        },
    }
}

fn read_label<'a>(line: &'a [char], label: &str) -> (value: Option<&'a [char]>)
    ensures
        match value {
            Some(value) => labelled(line@, label@) == Some(value@),
            None => labelled(line@, label@) is None,
        },
{
    let mut at: usize = 0;
    assert(line@.skip(0) =~= line@);
    while at < line.len() && line[at] != ':'
        invariant
            at <= line@.len(),
            scan::until(line@, ':') == at + scan::until(line@.skip(at as int), ':'),
        decreases line@.len() - at,
    {
        assert(line@.skip(at as int).drop_first() =~= line@.skip(at + 1));
        at = at + 1;
    }
    assert(at < line@.len() ==> line@.skip(at as int)[0] == line@[at as int]);
    if at >= line.len() {
        return None;
    }
    let name = slice_subrange(line, 0, at);
    assert(name@ =~= line@.take(at as int));
    if !spells(trimmed(name), label) {
        return None;
    }
    let rest = slice_subrange(line, at + 1, line.len());
    assert(rest@ =~= line@.skip(at + 1));
    Some(trimmed(rest))
}

/// Reads whether a service is said to start with the machine.
pub fn parse_service_auto_start(bytes: &[u8]) -> (automatic: Option<bool>)
    ensures
        automatic == service_auto_start(bytes@),
{
    let output = match decode_chars(bytes) {
        Some(output) => output,
        None => {
            return None;
        },
    };
    let pieces = split_lines(&output);
    let ghost lines = scan::lines(output@);
    let ghost label = "START_TYPE"@;
    let mut found: usize = 0;
    let mut automatic = false;
    for i in 0..pieces.len()
        invariant
            lines == scan::lines(output@),
            label == "START_TYPE"@,
            pieces@.len() == lines.len(),
            forall|k: int| 0 <= k < pieces@.len() ==> (#[trigger] pieces@[k])@ == lines[k],
            found <= i,
            found == all_labelled(lines.take(i as int), label).len(),
            found == 1 ==> automatic == ({
                let value = all_labelled(lines.take(i as int), label)[0];
                value.len() > 0 && value[0] == '2' && scan::occurs(value, "AUTO_START"@)
            }),
    {
        assert(lines.take(i + 1).drop_last() =~= lines.take(i as int));
        assert(pieces@[i as int]@ == lines[i as int]);
        match read_label(&pieces[i], "START_TYPE") {
            Some(value) => {
                found = found + 1;
                if found == 1 {
                    automatic = value.len() > 0 && value[0] == '2' && contains_text(
                        value,
                        "AUTO_START",
                    );
                }
            },
            None => {},
        }
    }
    assert(lines.take(lines.len() as int) =~= lines);
    if found == 1 {
        Some(automatic)
    } else {
        None
    }
}

// ---------------------------------------------------------------------------
// Sleep
// ---------------------------------------------------------------------------

/// A number behind a label: it is written with the prefix `0x`.
pub open spec fn index_value(rest: Seq<char>) -> Option<nat> {
    let value = scan::trim(rest);
    if scan::begins_with(value, "0x"@) {
        number::unsigned(value.skip("0x"@.len() as int), 16, u32::MAX as nat)
    } else {
        None
    }
}

/// The two numbers that lines state, each at most once. Other lines are passed
/// over.
pub open spec fn sleep_indices(
    lines: Seq<Seq<char>>,
    ac: Option<nat>,
    dc: Option<nat>,
) -> Option<(Option<nat>, Option<nat>)>
    decreases lines.len(),
{
    if lines.len() == 0 {
        Some((ac, dc))
    } else {
        let line = scan::trim(lines[0]);
        let on_ac = "Current AC Power Setting Index:"@;
        let on_dc = "Current DC Power Setting Index:"@;
        if scan::begins_with(line, on_ac) {
            match index_value(line.skip(on_ac.len() as int)) {
                Some(value) if ac is None => sleep_indices(lines.drop_first(), Some(value), dc),
                _ => None,
            }
        } else if scan::begins_with(line, on_dc) {
            match index_value(line.skip(on_dc.len() as int)) {
                Some(value) if dc is None => sleep_indices(lines.drop_first(), ac, Some(value)),
                _ => None,
            }
        } else {
            sleep_indices(lines.drop_first(), ac, dc)
        }
    }
}

/// Whether a machine is said never to sleep, on mains and on battery.
pub open spec fn never_sleeps(bytes: Seq<u8>) -> Option<bool> {
    match text::decoded(bytes) {
        None => None,
        Some(output) => match sleep_indices(scan::lines(output), None, None) {
            None => None,
            Some((ac, dc)) => match ac {
                None => None,
                Some(ac) => if ac != 0 {
                    Some(false)
                } else {
                    match dc {
                        None => None,
                        Some(dc) => Some(dc == 0),
                    }
                },
            },
        },
    }
}

fn read_index(rest: &[char]) -> (value: Option<u64>)
    ensures
        match value {
            Some(value) => index_value(rest@) == Some(value as nat),
            None => index_value(rest@) is None,
        },
{
    let value = trimmed(rest);
    match strip_prefix(value, "0x") {
        Some(digits) => parse_unsigned(digits, 16, u32::MAX as u64),
        None => None,
    }
}

/// A number that was read.
pub open spec fn as_nat(value: Option<u64>) -> Option<nat> {
    match value {
        Some(value) => Some(value as nat),
        None => None,
    }
}

/// Reads whether a machine is said never to sleep.
pub fn parse_sleep_posture(bytes: &[u8]) -> (healthy: Option<bool>)
    ensures
        healthy == never_sleeps(bytes@),
{
    let output = match decode_chars(bytes) {
        Some(output) => output,
        None => {
            return None;
        },
    };
    let pieces = split_lines(&output);
    let ghost lines = scan::lines(output@);
    let ghost whole = sleep_indices(lines, None, None);
    let mut ac: Option<u64> = None;
    let mut dc: Option<u64> = None;
    assert(lines.skip(0) =~= lines);
    for i in 0..pieces.len()
        invariant
            lines == scan::lines(output@),
            text::decoded(bytes@) == Some(output@),
            pieces@.len() == lines.len(),
            forall|k: int| 0 <= k < pieces@.len() ==> (#[trigger] pieces@[k])@ == lines[k],
            whole == sleep_indices(lines, None, None),
            whole == sleep_indices(lines.skip(i as int), as_nat(ac), as_nat(dc)),
    {
        assert(pieces@[i as int]@ == lines[i as int]);
        assert(lines.skip(i as int)[0] == lines[i as int]);
        assert(lines.skip(i as int).drop_first() =~= lines.skip(i + 1));
        let line = trimmed(&pieces[i]);
        match strip_prefix(line, "Current AC Power Setting Index:") {
            Some(rest) => {
                if ac.is_some() {
                    return None;
                }
                match read_index(rest) {
                    Some(value) => {
                        ac = Some(value);
                    },
                    None => {
                        return None;
                    },
                }
            },
            None => {
                match strip_prefix(line, "Current DC Power Setting Index:") {
                    Some(rest) => {
                        if dc.is_some() {
                            return None;
                        }
                        match read_index(rest) {
                            Some(value) => {
                                dc = Some(value);
                            },
                            None => {
                                return None;
                            },
                        }
                    },
                    None => {},
                }
            },
        }
    }
    match ac {
        None => None,
        Some(ac) => {
            if ac != 0 {
                return Some(false);
            }
            match dc {
                None => None,
                Some(dc) => Some(dc == 0),
            }
        },
    }
}

} // verus!
