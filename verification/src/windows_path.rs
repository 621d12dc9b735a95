//! Windows path text: which spellings name a directory unambiguously.

use crate::error;
use crate::error::{invalid_data, PlatformError};
use crate::scan;
use crate::scan::{lowered, split_chars, split_units};
use crate::text;
use crate::text::{chars_of, spells};
use vstd::prelude::*;
use vstd::slice::slice_subrange;
use vstd::slice::slice_to_vec;
use vstd::utf8::encode_utf8;

verus! {

/// The code units of path punctuation.
pub const BACKSLASH: u16 = 92;

pub const COLON: u16 = 58;

pub const DOT: u16 = 46;

pub const SPACE: u16 = 32;

/// The result of an ordinal comparison of equal names.
pub const CSTR_EQUAL: i32 = 2;

/// The longest dedicated account name, in UTF-16 code units.
pub const MAX_ACCOUNT_NAME_UNITS: usize = 20;

// ---------------------------------------------------------------------------
// Reserved names
// ---------------------------------------------------------------------------

/// The lower-case form of an ASCII letter's code; any other code itself.
pub open spec fn fold_code(code: int) -> int {
    if 65 <= code <= 90 {
        code + 32
    } else {
        code
    }
}

/// Whether `actual` spells `expected`, ignoring the case of ASCII letters.
pub open spec fn spelled(actual: Seq<u16>, expected: Seq<u8>) -> bool {
    &&& actual.len() == expected.len()
    &&& forall|i: int|
        0 <= i < actual.len() ==> fold_code(#[trigger] actual[i] as int) == fold_code(
            expected[i] as int,
        )
}

fn fold(code: u16) -> (folded: u16)
    ensures
        folded == fold_code(code as int),
{
    if 65 <= code && code <= 90 {
        code + 32
    } else {
        code
    }
}

/// Whether `actual` spells `expected`, ignoring the case of ASCII letters.
pub fn windows_utf16_eq_ascii(actual: &[u16], expected: &[u8]) -> (same: bool)
    ensures
        same == spelled(actual@, expected@),
{
    if actual.len() != expected.len() {
        return false;
    }
    for i in 0..actual.len()
        invariant
            actual@.len() == expected@.len(),
            forall|j: int|
                0 <= j < i ==> fold_code(#[trigger] actual@[j] as int) == fold_code(
                    expected@[j] as int,
                ),
    {
        if fold(actual[i]) != fold(expected[i] as u16) {
            return false;
        }
    }
    true
}

/// The names that Windows resolves to devices.
pub open spec fn reserved_name(name: Seq<u16>) -> bool {
    ||| spelled(name, encode_utf8("CON"@))
    ||| spelled(name, encode_utf8("PRN"@))
    ||| spelled(name, encode_utf8("AUX"@))
    ||| spelled(name, encode_utf8("NUL"@))
    ||| spelled(name, encode_utf8("CONIN$"@))
    ||| spelled(name, encode_utf8("CONOUT$"@))
    ||| spelled(name, encode_utf8("CLOCK$"@))
    ||| {
        &&& name.len() == 4
        &&& spelled(name.take(3), encode_utf8("COM"@)) || spelled(
            name.take(3),
            encode_utf8("LPT"@),
        )
        &&& port_digit(name[3])
    }
}

/// The digits that number a serial or parallel port, superscripts included.
pub open spec fn port_digit(unit: u16) -> bool {
    0x31 <= unit <= 0x39 || unit == 0xb9 || unit == 0xb2 || unit == 0xb3
}

/// Whether Windows resolves `name` to a device.
pub fn windows_reserved_dos_name(name: &[u16]) -> (reserved: bool)
    ensures
        reserved == reserved_name(name@),
{
    if windows_utf16_eq_ascii(name, "CON".as_bytes()) || windows_utf16_eq_ascii(
        name,
        "PRN".as_bytes(),
    ) || windows_utf16_eq_ascii(name, "AUX".as_bytes()) || windows_utf16_eq_ascii(
        name,
        "NUL".as_bytes(),
    ) || windows_utf16_eq_ascii(name, "CONIN$".as_bytes()) || windows_utf16_eq_ascii(
        name,
        "CONOUT$".as_bytes(),
    ) || windows_utf16_eq_ascii(name, "CLOCK$".as_bytes()) {
        return true;
    }
    if name.len() != 4 {
        return false;
    }
    let stem = slice_subrange(name, 0, 3);
    let digit: u16 = name[3];
    (windows_utf16_eq_ascii(stem, "COM".as_bytes()) || windows_utf16_eq_ascii(
        stem,
        "LPT".as_bytes(),
    )) && ((0x31 <= digit && digit <= 0x39) || digit == 0xb9 || digit == 0xb2 || digit == 0xb3)
}

// ---------------------------------------------------------------------------
// Components
// ---------------------------------------------------------------------------

/// The code units that no component holds: controls and `<>:"/|?*`.
pub open spec fn forbidden_unit(unit: u16) -> bool {
    unit <= 31 || unit == 60 || unit == 62 || unit == 58 || unit == 34 || unit == 47 || unit == 124
        || unit == 63 || unit == 42
}

/// `name` without the spaces and dots at its end.
pub open spec fn without_tail(name: Seq<u16>) -> Seq<u16>
    decreases name.len(),
{
    if name.len() > 0 && (name.last() == SPACE || name.last() == DOT) {
        without_tail(name.drop_last())
    } else {
        name
    }
}

/// What Windows compares with its device names: what stands before the first
/// dot, without the spaces behind it.
pub open spec fn device_stem(component: Seq<u16>) -> Seq<u16> {
    without_tail(component.take(scan::until(component, DOT) as int))
}

/// Whether `component` names exactly one entry of a directory.
pub open spec fn normal_component(component: Seq<u16>) -> bool {
    &&& component.len() > 0
    &&& component.last() != DOT && component.last() != SPACE
    &&& forall|i: int| 0 <= i < component.len() ==> !forbidden_unit(#[trigger] component[i])
    &&& !reserved_name(device_stem(component))
}

fn unit_is_forbidden(unit: u16) -> (forbidden: bool)
    ensures
        forbidden == forbidden_unit(unit),
{
    unit <= 31 || unit == 60 || unit == 62 || unit == 58 || unit == 34 || unit == 47 || unit == 124
        || unit == 63 || unit == 42
}

/// Whether `component` names exactly one entry of a directory.
pub fn windows_worker_component_is_normalized(component: &[u16]) -> (normalized: bool)
    ensures
        normalized == normal_component(component@),
{
    let length: usize = component.len();
    if length == 0 || component[length - 1] == DOT || component[length - 1] == SPACE {
        return false;
    }
    for i in 0..length
        invariant
            length == component@.len(),
            forall|j: int| 0 <= j < i ==> !forbidden_unit(#[trigger] component@[j]),
    {
        if unit_is_forbidden(component[i]) {
            return false;
        }
    }
    let mut end: usize = 0;
    while end < length && component[end] != DOT
        invariant
            end <= length,
            length == component@.len(),
            forall|j: int| 0 <= j < end ==> component@[j] != DOT,
        decreases length - end,
    {
        end = end + 1;
    }
    proof {
        scan::lemma_until_is(component@, DOT, end as int);
    }
    let ghost stem = component@.take(end as int);
    assert(component@.subrange(0, end as int) == stem);
    while end > 0 && (component[end - 1] == SPACE || component[end - 1] == DOT)
        invariant
            end <= component@.len(),
            without_tail(component@.subrange(0, end as int)) == without_tail(stem),
        decreases end,
    {
        assert(component@.subrange(0, end as int).drop_last() == component@.subrange(0, end - 1));
        end = end - 1;
    }
    !windows_reserved_dos_name(slice_subrange(component, 0, end))
}

/// Whether `units` spell an absolute path on a drive with at least one
/// component, each of which names exactly one entry.
pub open spec fn normal_text(units: Seq<u16>) -> bool {
    let pieces = scan::split_on(units.skip(3), BACKSLASH);
    &&& units.len() >= 4
    &&& 0x41 <= units[0] <= 0x5a || 0x61 <= units[0] <= 0x7a
    &&& units[1] == COLON
    &&& units[2] == BACKSLASH
    &&& !units.contains(0)
    &&& forall|i: int| 0 <= i < pieces.len() ==> normal_component(#[trigger] pieces[i])
}

/// Whether `units` spell an absolute path on a drive with at least one
/// component, each of which names exactly one entry.
pub fn windows_worker_root_text_is_normalized(units: &[u16]) -> (normalized: bool)
    ensures
        normalized == normal_text(units@),
{
    if units.len() < 4 {
        return false;
    }
    let drive: u16 = units[0];
    if !((0x41 <= drive && drive <= 0x5a) || (0x61 <= drive && drive <= 0x7a)) || units[1] != COLON
        || units[2] != BACKSLASH {
        return false;
    }
    for i in 0..units.len()
        invariant
            forall|j: int| 0 <= j < i ==> units@[j] != 0,
    {
        if units[i] == 0 {
            return false;
        }
    }
    let rest = slice_subrange(units, 3, units.len());
    assert(rest@ == units@.skip(3));
    let pieces = split_units(rest, BACKSLASH);
    for i in 0..pieces.len()
        invariant
            pieces@.len() == scan::split_on(units@.skip(3), BACKSLASH).len(),
            forall|j: int|
                0 <= j < pieces@.len() ==> (#[trigger] pieces@[j])@ == scan::split_on(
                    units@.skip(3),
                    BACKSLASH,
                )[j],
            forall|j: int|
                0 <= j < i ==> normal_component(
                    #[trigger] scan::split_on(units@.skip(3), BACKSLASH)[j],
                ),
    {
        if !windows_worker_component_is_normalized(&pieces[i]) {
            assert(!normal_component(scan::split_on(units@.skip(3), BACKSLASH)[i as int]));
            return false;
        }
    }
    true
}

/// Whether the path `units` is spelled as Windows itself would spell it.
/// `full` is the full path that Windows reports for `units`.
pub open spec fn normal_path(units: Seq<u16>, full: Option<Seq<u16>>) -> bool {
    normal_text(units) && full == Some(units)
}

/// Whether two sequences of code units are equal.
pub fn same_units(left: &[u16], right: &[u16]) -> (same: bool)
    ensures
        same == (left@ == right@),
{
    if left.len() != right.len() {
        return false;
    }
    for i in 0..left.len()
        invariant
            left@.len() == right@.len(),
            forall|j: int| 0 <= j < i ==> left@[j] == right@[j],
    {
        if left[i] != right[i] {
            return false;
        }
    }
    assert(left@ =~= right@);
    true
}

/// The view of an optional vector.
pub open spec fn optional_units(units: Option<Vec<u16>>) -> Option<Seq<u16>> {
    match units {
        Some(units) => Some(units@),
        None => None,
    }
}

/// Whether the path `units` is spelled as Windows itself would spell it.
/// `full` is the full path that Windows reports for `units`, where it does.
pub fn worker_root_path_is_normalized(units: &[u16], full: &Option<Vec<u16>>) -> (normalized: bool)
    ensures
        normalized == normal_path(units@, optional_units(*full)),
{
    match full {
        Some(full) => windows_worker_root_text_is_normalized(units) && same_units(full, units),
        None => false,
    }
}

// ---------------------------------------------------------------------------
// Parsed paths
// ---------------------------------------------------------------------------

/// A normalized path: its terminated volume root and its components.
#[derive(Debug)]
pub struct WindowsWorkerPath {
    pub volume_root: Vec<u16>,
    pub components: Vec<Vec<u16>>,
}

/// What the components of a path are.
pub open spec fn unit_views(components: Seq<Vec<u16>>) -> Seq<Seq<u16>> {
    components.map_values(|component: Vec<u16>| component@)
}

/// A comparison answers for any two components, and always the same for the same
/// two.
pub open spec fn comparer<F: Fn(&[u16], &[u16]) -> i32>(compare: F) -> bool {
    &&& forall|l: &[u16], r: &[u16]| #[trigger] call_requires(compare, (l, r))
    &&& forall|a: &[u16], b: &[u16], c: &[u16], d: &[u16], u: i32, v: i32|
        a@ == c@ && b@ == d@ && #[trigger] call_ensures(compare, (a, b), u)
            && #[trigger] call_ensures(compare, (c, d), v) ==> u == v
}

/// Whether two components are the same to Windows: neither is too long to be
/// compared, and the comparison finds them equal.
pub open spec fn equal_components<F: Fn(&[u16], &[u16]) -> i32>(
    compare: F,
    left: Seq<u16>,
    right: Seq<u16>,
) -> bool {
    &&& left.len() <= i32::MAX && right.len() <= i32::MAX
    &&& exists|l: &[u16], r: &[u16]|
        l@ == left && r@ == right && #[trigger] call_ensures(compare, (l, r), CSTR_EQUAL)
}

/// Whether two components are the same to Windows.
pub fn windows_components_equal<F: Fn(&[u16], &[u16]) -> i32>(
    left: &[u16],
    right: &[u16],
    compare: &F,
) -> (same: bool)
    requires
        comparer(*compare),
    ensures
        same == equal_components(*compare, left@, right@),
{
    if left.len() > i32::MAX as usize || right.len() > i32::MAX as usize {
        return false;
    }
    let comparison: i32 = compare(left, right);
    assert(call_ensures(*compare, (left, right), comparison));
    comparison == CSTR_EQUAL
}

/// What a path is.
pub struct WorkerPathModel {
    pub volume: Seq<u16>,
    pub components: Seq<Seq<u16>>,
}

impl View for WindowsWorkerPath {
    type V = WorkerPathModel;

    open spec fn view(&self) -> WorkerPathModel {
        WorkerPathModel { volume: self.volume_root@, components: unit_views(self.components@) }
    }
}

/// The path that normalized `units` spell.
pub open spec fn parsed(units: Seq<u16>) -> WorkerPathModel {
    WorkerPathModel {
        volume: units.take(3).push(0),
        components: scan::split_on(units.skip(3), BACKSLASH),
    }
}

/// The text of a path.
pub open spec fn spelled_out(path: WorkerPathModel) -> Seq<u16> {
    path.volume.drop_last() + scan::join(path.components, BACKSLASH)
}

/// Spelling out a parsed path gives back its text.
pub proof fn parse_then_spell_out(units: Seq<u16>)
    requires
        normal_text(units),
    ensures
        spelled_out(parsed(units)) == units,
{
    scan::split_then_join(units.skip(3), BACKSLASH);
    assert(units.take(3).push(0).drop_last() == units.take(3));
    assert(units.take(3) + units.skip(3) == units);
}

impl WindowsWorkerPath {
    /// A parsed path has a terminated drive root.
    pub open spec fn well_formed(&self) -> bool {
        self.volume_root@.len() == 4
    }

    /// Parses a normalized path; `full` is the full path that Windows reports
    /// for `units`, where it does.
    pub fn parse(units: &[u16], full: &Option<Vec<u16>>) -> (result: Result<Self, PlatformError>)
        ensures
            match result {
                Ok(path) => normal_path(units@, optional_units(*full)) && path@ == parsed(units@)
                    && path.well_formed(),
                Err(refusal) => !normal_path(units@, optional_units(*full)) && refusal
                    == error::malformed("worker directory path is not normalized"),
            },
    {
        if !worker_root_path_is_normalized(units, full) {
            return Err(invalid_data("worker directory path is not normalized"));
        }
        let mut volume_root = slice_to_vec(slice_subrange(units, 0, 3));
        volume_root.push(0);
        let rest = slice_subrange(units, 3, units.len());
        assert(rest@ == units@.skip(3));
        assert(volume_root@ == units@.take(3).push(0));
        let components = split_units(rest, BACKSLASH);
        assert(unit_views(components@) =~= scan::split_on(units@.skip(3), BACKSLASH));
        Ok(WindowsWorkerPath { volume_root, components })
    }

    /// Whether the path lies at or below `prefix`: the same drive, ignoring
    /// case, and the same leading components to Windows.
    pub fn has_component_prefix<F: Fn(&[u16], &[u16]) -> i32>(
        &self,
        prefix: &WindowsWorkerPath,
        compare: &F,
    ) -> (below: bool)
        requires
            self.well_formed(),
            prefix.well_formed(),
            comparer(*compare),
        ensures
            below == path_below(*compare, self@, prefix@),
    {
        let ghost mine = self@.components;
        let ghost theirs = prefix@.components;
        let left: u16 = self.volume_root[0];
        let right: u16 = prefix.volume_root[0];
        if left > 255 || right > 255 || fold(left) != fold(right) || self.volume_root[1]
            != prefix.volume_root[1] || self.components.len() < prefix.components.len() {
            return false;
        }
        for i in 0..prefix.components.len()
            invariant
                mine == self@.components,
                theirs == prefix@.components,
                theirs.len() <= mine.len(),
                comparer(*compare),
                forall|j: int|
                    0 <= j < i ==> equal_components(*compare, #[trigger] mine[j], theirs[j]),
        {
            let same = windows_components_equal(&self.components[i], &prefix.components[i], compare);
            assert(same == equal_components(*compare, mine[i as int], theirs[i as int]));
            if !same {
                return false;
            }
        }
        true
    }

    /// The path of the first `components` components.
    pub fn prefix(&self, components: usize) -> (shorter: WindowsWorkerPath)
        requires
            components <= self@.components.len(),
        ensures
            shorter@.volume == self@.volume,
            shorter@.components == self@.components.take(components as int),
    {
        let mut taken: Vec<Vec<u16>> = Vec::new();
        for i in 0..components
            invariant
                components <= self.components@.len(),
                taken@.len() == i,
                forall|j: int| 0 <= j < i ==> (#[trigger] taken@[j])@ == self.components@[j]@,
        {
            taken.push(slice_to_vec(self.components[i].as_slice()));
        }
        let volume_root = slice_to_vec(self.volume_root.as_slice());
        let shorter = WindowsWorkerPath { volume_root, components: taken };
        assert(shorter@.components =~= self@.components.take(components as int));
        shorter
    }
}

/// Whether two volume roots name the same drive.
pub open spec fn same_drive(left: Seq<u16>, right: Seq<u16>) -> bool {
    &&& left[0] <= 255 && right[0] <= 255
    &&& fold_code(left[0] as int) == fold_code(right[0] as int)
    &&& left[1] == right[1]
}

/// Whether a path lies at or below another to Windows: the same drive, ignoring
/// case, and the same leading components.
pub open spec fn path_below<F: Fn(&[u16], &[u16]) -> i32>(
    compare: F,
    path: WorkerPathModel,
    prefix: WorkerPathModel,
) -> bool {
    &&& same_drive(path.volume, prefix.volume)
    &&& path.components.len() >= prefix.components.len()
    &&& forall|i: int|
        0 <= i < prefix.components.len() ==> equal_components(
            compare,
            #[trigger] path.components[i],
            prefix.components[i],
        )
}

/// Whether two paths name the same place to Windows: equally many components,
/// and each lies at or below the other.
pub fn windows_paths_equal<F: Fn(&[u16], &[u16]) -> i32>(
    left: &WindowsWorkerPath,
    right: &WindowsWorkerPath,
    compare: &F,
) -> (same: bool)
    requires
        left.well_formed(),
        right.well_formed(),
        comparer(*compare),
    ensures
        same == (left@.components.len() == right@.components.len() && path_below(
            *compare,
            left@,
            right@,
        ) && path_below(*compare, right@, left@)),
{
    left.components.len() == right.components.len() && left.has_component_prefix(right, compare)
        && right.has_component_prefix(left, compare)
}

// ---------------------------------------------------------------------------
// Account names
// ---------------------------------------------------------------------------

/// The number of UTF-16 code units of `text`.
pub open spec fn utf16_len(text: Seq<char>) -> nat
    decreases text.len(),
{
    if text.len() == 0 {
        0
    } else {
        utf16_len(text.drop_last()) + if (text.last() as u32) >= 0x10000 {
            2nat
        } else {
            1nat
        }
    }
}

/// The device names that no account may be named like, in lower case.
pub open spec fn reserved_account_stem(stem: Seq<char>) -> bool {
    ||| stem == "con"@
    ||| stem == "prn"@
    ||| stem == "aux"@
    ||| stem == "nul"@
    ||| {
        &&& stem.len() == 4
        &&& stem.take(3) == "com"@ || stem.take(3) == "lpt"@
        &&& '1' <= stem[3] <= '9'
    }
}

/// Whether Windows can hold a local account of this name.
pub open spec fn account_name(name: Seq<char>) -> bool {
    &&& utf16_len(name) <= MAX_ACCOUNT_NAME_UNITS
    &&& !reserved_account_stem(scan::lower(scan::split_on(name, '.')[0]))
}

/// Whether Windows can hold a local account of this name.
pub fn dedicated_account_name_is_valid(name: &str) -> (valid: bool)
    ensures
        valid == account_name(name@),
{
    let chars = chars_of(name);
    let mut units: usize = 0;
    let mut too_long = false;
    for i in 0..chars.len()
        invariant
            chars@ == name@,
            too_long ==> utf16_len(name@) > MAX_ACCOUNT_NAME_UNITS,
            !too_long ==> units == utf16_len(name@.take(i as int)) && units
                <= MAX_ACCOUNT_NAME_UNITS,
    {
        proof {
            assert(name@.take(i + 1).drop_last() == name@.take(i as int));
            lemma_utf16_prefix(name@, i + 1);
        }
        if !too_long {
            units = units + if (chars[i] as u32) >= 0x10000 {
                2
            } else {
                1
            };
            if units > MAX_ACCOUNT_NAME_UNITS {
                too_long = true;
            }
        }
    }
    assert(name@.take(name@.len() as int) == name@);
    let pieces = split_chars(&chars, '.');
    proof {
        scan::lemma_split_nonempty(name@, '.');
        assert(pieces@[0]@ == scan::split_on(name@, '.')[0]);
    }
    let stem = lowered(&pieces[0]);
    let port = stem.len() == 4 && (spells(slice_subrange(&stem, 0, 3), "com") || spells(
        slice_subrange(&stem, 0, 3),
        "lpt",
    )) && '1' <= stem[3] && stem[3] <= '9';
    assert(stem@.len() == 4 ==> stem@.subrange(0, 3) == stem@.take(3));
    !too_long && !(spells(&stem, "con") || spells(&stem, "prn") || spells(&stem, "aux") || spells(
        &stem,
        "nul",
    ) || port)
}

proof fn lemma_utf16_prefix(text: Seq<char>, n: int)
    requires
        0 <= n <= text.len(),
    ensures
        utf16_len(text.take(n)) <= utf16_len(text),
    decreases text.len() - n,
{
    if n < text.len() {
        lemma_utf16_prefix(text, n + 1);
        assert(text.take(n + 1).drop_last() == text.take(n));
    } else {
        assert(text.take(n) == text);
    }
}

} // verus!
