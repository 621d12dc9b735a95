//! Which spellings of a Windows path are accepted, and when two paths are one place, in
//! terms of the code units that spell them.

use crate::error::{ErrorKind, PlatformError};
use crate::scan;
use crate::windows_path;
use crate::windows_path::{
    comparer, dedicated_account_name_is_valid, windows_components_equal, windows_paths_equal,
    windows_reserved_dos_name, windows_utf16_eq_ascii, windows_worker_component_is_normalized,
    windows_worker_root_text_is_normalized, worker_root_path_is_normalized, WindowsWorkerPath,
};
use vstd::prelude::*;
use vstd::utf8::{encode_utf8, is_ascii_chars};

verus! {

/// Whether code units spell a word, in large or small letters.
pub open spec fn is_word(units: Seq<u16>, word: Seq<char>) -> bool {
    &&& units.len() == word.len()
    &&& forall|i: int|
        0 <= i < units.len() ==> {
            let c = word[i];
            ||| #[trigger] units[i] == c as u16
            ||| 'A' <= c <= 'Z' && units[i] == c as u16 + 32
            ||| 'a' <= c <= 'z' && units[i] == c as u16 - 32
        }
}

proof fn lemma_is_word(units: Seq<u16>, word: Seq<char>)
    requires
        is_ascii_chars(word),
    ensures
        windows_path::spelled(units, encode_utf8(word)) == is_word(units, word),
{
    vstd::utf8::is_ascii_chars_encode_utf8(word);
    vstd::utf8::is_ascii_chars_nat_bound(word);
    let bytes = encode_utf8(word);
    if units.len() == word.len() {
        assert forall|i: int| 0 <= i < units.len() implies (windows_path::fold_code(
            #[trigger] units[i] as int,
        ) == windows_path::fold_code(bytes[i] as int)) == ({
            let c = word[i];
            ||| units[i] == c as u16
            ||| 'A' <= c <= 'Z' && units[i] == c as u16 + 32
            ||| 'a' <= c <= 'z' && units[i] == c as u16 - 32
        }) by {
            assert(word[i] as u8 == bytes[i]);
            assert((word[i] as nat) < 128);
        }
        if windows_path::spelled(units, bytes) {
            assert forall|i: int| 0 <= i < units.len() implies {
                let c = word[i];
                ||| #[trigger] units[i] == c as u16
                ||| 'A' <= c <= 'Z' && units[i] == c as u16 + 32
                ||| 'a' <= c <= 'z' && units[i] == c as u16 - 32
            } by {
                assert(windows_path::fold_code(units[i] as int) == windows_path::fold_code(
                    bytes[i] as int,
                ));
            }
        }
    }
}

/// Whether Windows takes a name for a device.
pub open spec fn is_device(name: Seq<u16>) -> bool {
    ||| is_word(name, "CON"@)
    ||| is_word(name, "PRN"@)
    ||| is_word(name, "AUX"@)
    ||| is_word(name, "NUL"@)
    ||| is_word(name, "CONIN$"@)
    ||| is_word(name, "CONOUT$"@)
    ||| is_word(name, "CLOCK$"@)
    ||| {
        &&& name.len() == 4
        &&& is_word(name.take(3), "COM"@) || is_word(name.take(3), "LPT"@)
        &&& 0x31 <= name[3] <= 0x39 || name[3] == 0xb9 || name[3] == 0xb2 || name[3] == 0xb3
    }
}

proof fn lemma_is_device(name: Seq<u16>)
    ensures
        windows_path::reserved_name(name) == is_device(name),
{
    reveal_strlit("CON");
    reveal_strlit("PRN");
    reveal_strlit("AUX");
    reveal_strlit("NUL");
    reveal_strlit("CONIN$");
    reveal_strlit("CONOUT$");
    reveal_strlit("CLOCK$");
    reveal_strlit("COM");
    reveal_strlit("LPT");
    assert(is_ascii_chars("CON"@) && is_ascii_chars("PRN"@) && is_ascii_chars("AUX"@));
    assert(is_ascii_chars("NUL"@) && is_ascii_chars("COM"@) && is_ascii_chars("LPT"@));
    assert(is_ascii_chars("CONIN$"@) && is_ascii_chars("CONOUT$"@) && is_ascii_chars("CLOCK$"@));
    lemma_is_word(name, "CON"@);
    lemma_is_word(name, "PRN"@);
    lemma_is_word(name, "AUX"@);
    lemma_is_word(name, "NUL"@);
    lemma_is_word(name, "CONIN$"@);
    lemma_is_word(name, "CONOUT$"@);
    lemma_is_word(name, "CLOCK$"@);
    lemma_is_word(name.take(3), "COM"@);
    lemma_is_word(name.take(3), "LPT"@);
}

/// Names are reserved exactly where Windows takes them for a device.
pub proof fn device_names_are_reserved(name: &[u16], reserved: bool)
    requires
        call_ensures(windows_reserved_dos_name, (name,), reserved),
    ensures
        reserved <==> is_device(name@),
{
    lemma_is_device(name@);
}

/// Whether a name is the beginning of an entry's name that Windows looks at: what stands
/// before the first dot, without spaces at its end.
pub open spec fn is_stem(entry: Seq<u16>, stem: Seq<u16>) -> bool {
    exists|spaces: Seq<u16>, rest: Seq<u16>|
        entry == #[trigger] (stem + spaces + rest) && (forall|i: int|
            0 <= i < spaces.len() ==> #[trigger] spaces[i] == 0x20) && !(stem + spaces).contains(
            0x2e,
        ) && (rest.len() > 0 ==> rest[0] == 0x2e) && (stem.len() > 0 ==> stem.last() != 0x20)
}

proof fn lemma_without_tail(name: Seq<u16>) -> (spaces: Seq<u16>)
    requires
        !name.contains(0x2e),
    ensures
        name == windows_path::without_tail(name) + spaces,
        forall|i: int| 0 <= i < spaces.len() ==> #[trigger] spaces[i] == 0x20,
        windows_path::without_tail(name).len() > 0 ==> windows_path::without_tail(name).last()
            != 0x20,
    decreases name.len(),
{
    if name.len() > 0 && (name.last() == 0x20 || name.last() == 0x2e) {
        assert(name.last() != 0x2e) by {
            if name.last() == 0x2e {
                assert(name[name.len() - 1] == 0x2e);
            }
        }
        let fewer = name.drop_last();
        assert(!fewer.contains(0x2e)) by {
            if fewer.contains(0x2e) {
                let i = choose|i: int| 0 <= i < fewer.len() && fewer[i] == 0x2e;
                assert(name[i] == 0x2e);
            }
        }
        let spaces = lemma_without_tail(fewer);
        let more = spaces.push(0x20);
        assert(name.drop_last() == windows_path::without_tail(name) + spaces);
        assert(name =~= name.drop_last().push(name.last()));
        assert(name =~= windows_path::without_tail(name) + more);
        more
    } else {
        assert(name =~= name + Seq::<u16>::empty());
        Seq::empty()
    }
}

proof fn lemma_tail_of_spaces(stem: Seq<u16>, spaces: Seq<u16>)
    requires
        forall|i: int| 0 <= i < spaces.len() ==> #[trigger] spaces[i] == 0x20,
        stem.len() > 0 ==> stem.last() != 0x20 && stem.last() != 0x2e,
    ensures
        windows_path::without_tail(stem + spaces) == stem,
    decreases spaces.len(),
{
    let whole = stem + spaces;
    if spaces.len() > 0 {
        let fewer = spaces.drop_last();
        assert forall|i: int| 0 <= i < fewer.len() implies #[trigger] fewer[i] == 0x20 by {
            assert(fewer[i] == spaces[i]);
        }
        lemma_tail_of_spaces(stem, fewer);
        assert(whole.drop_last() =~= stem + fewer);
        assert(whole.last() == spaces[spaces.len() - 1]);
    } else {
        assert(whole =~= stem);
    }
}

proof fn lemma_stem(entry: Seq<u16>, stem: Seq<u16>)
    ensures
        windows_path::device_stem(entry) == stem <==> is_stem(entry, stem),
{
    scan::lemma_until(entry, 0x2e);
    let n = scan::until(entry, 0x2e) as int;
    let head = entry.take(n);
    if windows_path::device_stem(entry) == stem {
        assert(!head.contains(0x2e)) by {
            if head.contains(0x2e) {
                let i = choose|i: int| 0 <= i < head.len() && head[i] == 0x2e;
                assert(entry[i] == 0x2e);
            }
        }
        let spaces = lemma_without_tail(head);
        let rest = entry.skip(n);
        assert(entry =~= stem + spaces + rest);
        assert(stem + spaces =~= head);
    }
    if is_stem(entry, stem) {
        let (spaces, rest) = choose|spaces: Seq<u16>, rest: Seq<u16>|
            entry == #[trigger] (stem + spaces + rest) && (forall|i: int|
                0 <= i < spaces.len() ==> #[trigger] spaces[i] == 0x20) && !(stem
                + spaces).contains(0x2e) && (rest.len() > 0 ==> rest[0] == 0x2e) && (stem.len() > 0
                ==> stem.last() != 0x20);
        let before = stem + spaces;
        let m = before.len() as int;
        assert forall|i: int| 0 <= i < m implies entry[i] != 0x2e by {
            assert(entry[i] == before[i]);
            if before[i] == 0x2e {
                assert(before.contains(0x2e));
            }
        }
        if m < entry.len() {
            assert(entry[m] == rest[0]);
        }
        scan::lemma_until_is(entry, 0x2e, m);
        assert(head =~= before);
        if stem.len() > 0 {
            assert(stem.last() == before[stem.len() - 1]);
            assert(before.contains(stem.last()));
        }
        lemma_tail_of_spaces(stem, spaces);
    }
}

/// Whether a name is that of exactly one entry of a directory: it has no control unit and
/// none of `<>:"/|?*`, does not end with a dot or a space, and does not lead to a device.
pub open spec fn names_one_entry(name: Seq<u16>) -> bool {
    &&& name.len() > 0
    &&& name.last() != 0x2e && name.last() != 0x20
    &&& forall|i: int|
        0 <= i < name.len() ==> {
            let unit = #[trigger] name[i];
            unit >= 0x20 && unit != 0x3c && unit != 0x3e && unit != 0x3a && unit != 0x22 && unit
                != 0x2f && unit != 0x7c && unit != 0x3f && unit != 0x2a
        }
    &&& forall|stem: Seq<u16>| #[trigger] is_stem(name, stem) ==> !is_device(stem)
}

proof fn lemma_names_one_entry(name: Seq<u16>)
    ensures
        windows_path::normal_component(name) == names_one_entry(name),
{
    let stem = windows_path::device_stem(name);
    lemma_stem(name, stem);
    lemma_is_device(stem);
    assert forall|other: Seq<u16>| #[trigger] is_stem(name, other) implies other == stem by {
        lemma_stem(name, other);
    }
    if windows_path::normal_component(name) {
        assert forall|i: int| 0 <= i < name.len() implies {
            let unit = #[trigger] name[i];
            unit >= 0x20 && unit != 0x3c && unit != 0x3e && unit != 0x3a && unit != 0x22 && unit
                != 0x2f && unit != 0x7c && unit != 0x3f && unit != 0x2a
        } by {
            assert(!windows_path::forbidden_unit(name[i]));
        }
    }
    if names_one_entry(name) {
        assert forall|i: int| 0 <= i < name.len() implies !windows_path::forbidden_unit(
            #[trigger] name[i],
        ) by {}
    }
}

/// A component is accepted exactly where it names one entry.
pub proof fn components_name_one_entry(component: &[u16], normalized: bool)
    requires
        call_ensures(windows_worker_component_is_normalized, (component,), normalized),
    ensures
        normalized <==> names_one_entry(component@),
{
    lemma_names_one_entry(component@);
}

/// Whether units spell a path: a drive's letter, a colon, a backslash, and names of one
/// entry each with a backslash between each two, at least one.
pub open spec fn spells_path(units: Seq<u16>) -> bool {
    let names = scan::split_on(units.skip(3), 0x5cu16);
    &&& units.len() > 3
    &&& 0x41 <= units[0] <= 0x5a || 0x61 <= units[0] <= 0x7a
    &&& units[1] == 0x3a
    &&& units[2] == 0x5c
    &&& forall|i: int| 0 <= i < names.len() ==> names_one_entry(#[trigger] names[i])
}

pub(crate) proof fn lemma_spells_path(units: Seq<u16>)
    ensures
        windows_path::normal_text(units) == spells_path(units),
{
    let names = scan::split_on(units.skip(3), 0x5cu16);
    assert forall|i: int| 0 <= i < names.len() implies windows_path::normal_component(
        #[trigger] names[i],
    ) == names_one_entry(names[i]) by {
        lemma_names_one_entry(names[i]);
    }
    if spells_path(units) {
        if units.contains(0) {
            let at = choose|i: int| 0 <= i < units.len() && units[i] == 0;
            let rest = units.skip(3);
            assert(rest[at - 3] == 0);
            lemma_in_a_piece(rest, at - 3);
            let k = choose|k: int| 0 <= k < names.len() && (#[trigger] names[k]).contains(0);
            assert(names_one_entry(names[k]));
            let j = choose|j: int| 0 <= j < names[k].len() && names[k][j] == 0;
            assert(names[k][j] >= 0x20);
        }
    }
}

proof fn lemma_in_a_piece(units: Seq<u16>, at: int)
    requires
        0 <= at < units.len(),
        units[at] == 0,
    ensures
        exists|k: int|
            0 <= k < scan::split_on(units, 0x5cu16).len() && (#[trigger] scan::split_on(
                units,
                0x5cu16,
            )[k]).contains(0),
    decreases units.len(),
{
    let pieces = scan::split_on(units, 0x5cu16);
    scan::lemma_until(units, 0x5cu16);
    let n = scan::until(units, 0x5cu16) as int;
    if n >= units.len() {
        assert(pieces[0] == units);
        assert(pieces[0].contains(0));
    } else if at < n {
        assert(pieces[0] == units.take(n));
        assert(units.take(n)[at] == 0);
        assert(pieces[0].contains(0));
    } else {
        let rest = units.skip(n + 1);
        assert(rest[at - n - 1] == 0);
        lemma_in_a_piece(rest, at - n - 1);
        let tail = scan::split_on(rest, 0x5cu16);
        let k = choose|k: int| 0 <= k < tail.len() && (#[trigger] tail[k]).contains(0);
        assert(pieces[k + 1] == tail[k]);
    }
}

/// A path is accepted exactly where its units spell one and Windows spells it the same
/// way; it is then taken apart into its drive and its names.
pub proof fn paths_are_spelled_in_one_way(
    units: &[u16],
    full: &Option<Vec<u16>>,
    as_text: bool,
    as_path: bool,
    result: Result<WindowsWorkerPath, PlatformError>,
)
    requires
        call_ensures(windows_worker_root_text_is_normalized, (units,), as_text),
        call_ensures(worker_root_path_is_normalized, (units, full), as_path),
        call_ensures(WindowsWorkerPath::parse, (units, full), result),
    ensures
        as_text <==> spells_path(units@),
        as_path <==> spells_path(units@) && (*full matches Some(full) && full@ == units@),
        result is Ok <==> as_path,
        result matches Ok(path) ==> {
            &&& path@.volume == seq![units@[0], 0x3a, 0x5c, 0]
            &&& path@.components == scan::split_on(units@.skip(3), 0x5cu16)
        },
        result is Err ==> (result matches Err(PlatformError::Policy {
            kind: ErrorKind::InvalidData,
            ..
        })),
{
    lemma_spells_path(units@);
    if let Ok(path) = result {
        assert(path@.volume =~= seq![units@[0], 0x3a, 0x5c, 0]);
    }
}

/// Whether a comparison says that two names are the same.
pub open spec fn are_same<F: Fn(&[u16], &[u16]) -> i32>(
    compare: F,
    left: Seq<u16>,
    right: Seq<u16>,
) -> bool {
    &&& left.len() <= 0x7fff_ffff && right.len() <= 0x7fff_ffff
    &&& exists|l: &[u16], r: &[u16]|
        l@ == left && r@ == right && #[trigger] call_ensures(compare, (l, r), 2i32)
}

/// Whether two letters are of one drive, in large or small letters.
pub open spec fn is_same_drive(left: Seq<u16>, right: Seq<u16>) -> bool {
    &&& left[0] < 0x100 && right[0] < 0x100
    &&& left[0] == right[0] || (0x41 <= left[0] <= 0x5a && right[0] == left[0] + 32) || (0x41
        <= right[0] <= 0x5a && left[0] == right[0] + 32)
    &&& left[1] == right[1]
}

/// Two names are the same exactly where the system's comparison says so. A path lies
/// below another exactly where the drives are the same and every name of the other is
/// the path's at that place; two paths are one place exactly where each lies below the
/// other and they have equally many names.
pub proof fn paths_are_compared_name_by_name<F: Fn(&[u16], &[u16]) -> i32>(
    one: &[u16],
    two: &[u16],
    compare: &F,
    same: bool,
    left: &WindowsWorkerPath,
    right: &WindowsWorkerPath,
    below: bool,
    equal: bool,
)
    requires
        left.well_formed() && right.well_formed(),
        comparer(*compare),
        call_ensures(windows_components_equal::<F>, (one, two, compare), same),
        call_ensures(
            WindowsWorkerPath::has_component_prefix::<F>,
            (left, right, compare),
            below,
        ),
        call_ensures(windows_paths_equal::<F>, (left, right, compare), equal),
    ensures
        same <==> are_same(*compare, one@, two@),
        below <==> {
            &&& is_same_drive(left@.volume, right@.volume)
            &&& right@.components.len() <= left@.components.len()
            &&& forall|i: int|
                0 <= i < right@.components.len() ==> are_same(
                    *compare,
                    #[trigger] left@.components[i],
                    right@.components[i],
                )
        },
        equal ==> below && left@.components.len() == right@.components.len(),
        equal <==> {
            &&& is_same_drive(left@.volume, right@.volume)
            &&& right@.components.len() == left@.components.len()
            &&& forall|i: int|
                0 <= i < right@.components.len() ==> are_same(
                    *compare,
                    #[trigger] left@.components[i],
                    right@.components[i],
                )
            &&& forall|i: int|
                0 <= i < left@.components.len() ==> are_same(
                    *compare,
                    #[trigger] right@.components[i],
                    left@.components[i],
                )
        },
{
    assert forall|a: Seq<u16>, b: Seq<u16>| #[trigger]
        windows_path::equal_components(*compare, a, b) == are_same(*compare, a, b) by {}
    if below {
        assert forall|i: int| 0 <= i < right@.components.len() implies are_same(
            *compare,
            #[trigger] left@.components[i],
            right@.components[i],
        ) by {
            assert(windows_path::equal_components(
                *compare,
                left@.components[i],
                right@.components[i],
            ));
        }
    }
    if equal {
        assert forall|i: int| 0 <= i < left@.components.len() implies are_same(
            *compare,
            #[trigger] right@.components[i],
            left@.components[i],
        ) by {
            assert(windows_path::equal_components(
                *compare,
                right@.components[i],
                left@.components[i],
            ));
        }
    }
    if right@.components.len() <= left@.components.len() && (forall|i: int|
        0 <= i < right@.components.len() ==> are_same(
            *compare,
            #[trigger] left@.components[i],
            right@.components[i],
        )) {
        assert forall|i: int| 0 <= i < right@.components.len() implies
            windows_path::equal_components(
            *compare,
            #[trigger] left@.components[i],
            right@.components[i],
        ) by {
            assert(are_same(*compare, left@.components[i], right@.components[i]));
        }
    }
    if right@.components.len() == left@.components.len() && (forall|i: int|
        0 <= i < left@.components.len() ==> are_same(
            *compare,
            #[trigger] right@.components[i],
            left@.components[i],
        )) {
        assert forall|i: int| 0 <= i < left@.components.len() implies
            windows_path::equal_components(
            *compare,
            #[trigger] right@.components[i],
            left@.components[i],
        ) by {
            assert(are_same(*compare, right@.components[i], left@.components[i]));
        }
    }
}

/// The first names of a path are a path on the same drive.
pub proof fn paths_are_shortened_by_names(
    path: &WindowsWorkerPath,
    count: usize,
    shorter: WindowsWorkerPath,
)
    requires
        count <= path@.components.len(),
        call_ensures(WindowsWorkerPath::prefix, (path, count), shorter),
    ensures
        shorter@.volume == path@.volume,
        shorter@.components.len() == count,
        forall|i: int|
            0 <= i < count ==> #[trigger] shorter@.components[i] == path@.components[i],
{
}

// ---------------------------------------------------------------------------
// Account names
// ---------------------------------------------------------------------------

/// The units that a name takes: two for characters beyond the first plane.
pub open spec fn units_of(name: Seq<char>) -> nat
    decreases name.len(),
{
    if name.len() == 0 {
        0
    } else {
        units_of(name.drop_last()) + if name.last() as u32 > 0xffff {
            2nat
        } else {
            1nat
        }
    }
}

proof fn lemma_units_of(name: Seq<char>)
    ensures
        windows_path::utf16_len(name) == units_of(name),
    decreases name.len(),
{
    if name.len() > 0 {
        lemma_units_of(name.drop_last());
    }
}

/// Whether what stands before the first dot of a name is that of a device, in large or
/// small letters.
pub open spec fn is_device_account(name: Seq<char>) -> bool {
    let stem = scan::lower(name.take(scan::until(name, '.') as int));
    ||| stem == "con"@ || stem == "prn"@ || stem == "aux"@ || stem == "nul"@
    ||| stem.len() == 4 && (stem.take(3) == "com"@ || stem.take(3) == "lpt"@) && '1' <= stem[3]
        <= '9'
}

pub(crate) proof fn lemma_account_name(name: Seq<char>)
    ensures
        windows_path::account_name(name) <==> units_of(name) <= 20 && !is_device_account(name),
{
    lemma_units_of(name);
    scan::lemma_until(name, '.');
    let n = scan::until(name, '.') as int;
    if n >= name.len() {
        assert(name.take(n) =~= name);
    }
}

/// Windows holds an account exactly under a name of at most twenty units that is not that
/// of a device.
pub proof fn accounts_have_short_names(name: &str, valid: bool)
    requires
        call_ensures(dedicated_account_name_is_valid, (name,), valid),
    ensures
        valid <==> units_of(name@) <= 20 && !is_device_account(name@),
{
    lemma_account_name(name@);
}

/// Units spell a word exactly where they are as many and differ from its letters at most in
/// being capitals or not.
pub proof fn words_are_spelled_in_either_case(actual: &[u16], expected: &[u8], same: bool)
    requires
        call_ensures(windows_utf16_eq_ascii, (actual, expected), same),
    ensures
        same <==> actual@.len() == expected@.len() && forall|i: int|
            0 <= i < actual@.len() ==> {
                let (unit, byte) = (#[trigger] actual@[i] as int, expected@[i] as int);
                ||| unit == byte
                ||| 0x41 <= unit <= 0x5a && byte == unit + 0x20
                ||| 0x61 <= unit <= 0x7a && byte == unit - 0x20
            },
{
}

} // verus!
