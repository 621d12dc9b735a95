//! Cutting text into lines, fields and pieces.

use crate::text;
use crate::text::{ascii_space, chars_of, same_chars, white_space};
use vstd::prelude::*;
use vstd::slice::slice_subrange;
use vstd::slice::slice_to_vec;

verus! {

/// The number of elements before the first `separator`.
pub open spec fn until<T>(items: Seq<T>, separator: T) -> nat
    decreases items.len(),
{
    if items.len() == 0 || items[0] == separator {
        0
    } else {
        1 + until(items.drop_first(), separator)
    }
}

/// `until` stands at the first separator, or at the end.
pub proof fn lemma_until<T>(items: Seq<T>, separator: T)
    ensures
        until(items, separator) <= items.len(),
        until(items, separator) < items.len() ==> items[until(items, separator) as int]
            == separator,
        forall|i: int| 0 <= i < until(items, separator) ==> items[i] != separator,
    decreases items.len(),
{
    if items.len() != 0 && items[0] != separator {
        let rest = items.drop_first();
        lemma_until(rest, separator);
        assert forall|i: int| 0 <= i < until(items, separator) implies items[i] != separator by {
            if i > 0 {
                assert(items[i] == rest[i - 1]);
            }
        }
    }
}

/// A position that stands at the first separator, or at the end, is `until`.
pub proof fn lemma_until_is<T>(items: Seq<T>, separator: T, n: int)
    requires
        0 <= n <= items.len(),
        forall|i: int| 0 <= i < n ==> items[i] != separator,
        n < items.len() ==> items[n] == separator,
    ensures
        until(items, separator) == n,
{
    lemma_until(items, separator);
    let u = until(items, separator) as int;
    if u < n {
        assert(items[u] != separator);
    }
}

/// The pieces between separators; there is always at least one.
pub open spec fn split_on<T>(items: Seq<T>, separator: T) -> Seq<Seq<T>>
    decreases items.len(),
{
    let n = until(items, separator) as int;
    if n >= items.len() {
        seq![items]
    } else {
        seq![items.take(n)] + split_on(items.skip(n + 1), separator)
    }
}

/// Splitting never yields nothing.
pub proof fn lemma_split_nonempty<T>(items: Seq<T>, separator: T)
    ensures
        split_on(items, separator).len() >= 1,
{
}

/// The pieces of `chars` between occurrences of `separator`.
pub fn split_chars(chars: &[char], separator: char) -> (pieces: Vec<Vec<char>>)
    ensures
        pieces@.len() == split_on(chars@, separator).len(),
        forall|i: int| 0 <= i < pieces@.len() ==> (#[trigger] pieces@[i])@ == split_on(
            chars@,
            separator,
        )[i],
{
    let mut pieces: Vec<Vec<char>> = Vec::new();
    let mut start: usize = 0;
    let mut end: usize = 0;
    let ghost whole = split_on(chars@, separator);
    assert(chars@.skip(0) == chars@);
    while end < chars.len()
        invariant
            start <= end <= chars@.len(),
            whole == split_on(chars@, separator),
            pieces@.len() + split_on(chars@.skip(start as int), separator).len() == whole.len(),
            whole.skip(pieces@.len() as int) == split_on(chars@.skip(start as int), separator),
            forall|i: int| 0 <= i < pieces@.len() ==> (#[trigger] pieces@[i])@ == whole[i],
            forall|i: int| start <= i < end ==> chars@[i] != separator,
        decreases chars@.len() - end,
    {
        if chars[end] == separator {
            let ghost rest = chars@.skip(start as int);
            proof {
                lemma_until_is(rest, separator, end - start);
                assert(rest.skip(end - start + 1) == chars@.skip(end + 1));
                assert(rest.take(end - start) == chars@.subrange(start as int, end as int));
            }
            let ghost before = whole.skip(pieces@.len() as int);
            assert(before[0] == whole[pieces@.len() as int]);
            pieces.push(slice_to_vec(slice_subrange(chars, start, end)));
            start = end + 1;
            proof {
                assert(before.skip(1) == split_on(chars@.skip(start as int), separator));
                assert(whole.skip(pieces@.len() as int) == before.skip(1));
            }
        }
        end = end + 1;
    }
    let ghost rest = chars@.skip(start as int);
    proof {
        lemma_until_is(rest, separator, rest.len() as int);
        assert(rest == chars@.subrange(start as int, end as int));
        assert(whole.skip(pieces@.len() as int)[0] == whole[pieces@.len() as int]);
    }
    pieces.push(slice_to_vec(slice_subrange(chars, start, chars.len())));
    pieces
}

/// The pieces of `units` between occurrences of `separator`.
pub fn split_units(units: &[u16], separator: u16) -> (pieces: Vec<Vec<u16>>)
    ensures
        pieces@.len() == split_on(units@, separator).len(),
        forall|i: int| 0 <= i < pieces@.len() ==> (#[trigger] pieces@[i])@ == split_on(
            units@,
            separator,
        )[i],
{
    let mut pieces: Vec<Vec<u16>> = Vec::new();
    let mut start: usize = 0;
    let mut end: usize = 0;
    let ghost whole = split_on(units@, separator);
    assert(units@.skip(0) == units@);
    while end < units.len()
        invariant
            start <= end <= units@.len(),
            whole == split_on(units@, separator),
            pieces@.len() + split_on(units@.skip(start as int), separator).len() == whole.len(),
            whole.skip(pieces@.len() as int) == split_on(units@.skip(start as int), separator),
            forall|i: int| 0 <= i < pieces@.len() ==> (#[trigger] pieces@[i])@ == whole[i],
            forall|i: int| start <= i < end ==> units@[i] != separator,
        decreases units@.len() - end,
    {
        if units[end] == separator {
            let ghost rest = units@.skip(start as int);
            proof {
                lemma_until_is(rest, separator, end - start);
                assert(rest.skip(end - start + 1) == units@.skip(end + 1));
                assert(rest.take(end - start) == units@.subrange(start as int, end as int));
            }
            let ghost before = whole.skip(pieces@.len() as int);
            assert(before[0] == whole[pieces@.len() as int]);
            pieces.push(slice_to_vec(slice_subrange(units, start, end)));
            start = end + 1;
            proof {
                assert(before.skip(1) == split_on(units@.skip(start as int), separator));
                assert(whole.skip(pieces@.len() as int) == before.skip(1));
            }
        }
        end = end + 1;
    }
    let ghost rest = units@.skip(start as int);
    proof {
        lemma_until_is(rest, separator, rest.len() as int);
        assert(rest == units@.subrange(start as int, end as int));
        assert(whole.skip(pieces@.len() as int)[0] == whole[pieces@.len() as int]);
    }
    pieces.push(slice_to_vec(slice_subrange(units, start, units.len())));
    pieces
}

/// The pieces with a separator between each two.
pub open spec fn join<T>(pieces: Seq<Seq<T>>, separator: T) -> Seq<T>
    decreases pieces.len(),
{
    if pieces.len() == 0 {
        seq![]
    } else if pieces.len() == 1 {
        pieces[0]
    } else {
        pieces[0].push(separator) + join(pieces.drop_first(), separator)
    }
}

/// Joining the pieces of a split gives back what was split.
pub proof fn split_then_join<T>(items: Seq<T>, separator: T)
    ensures
        join(split_on(items, separator), separator) == items,
    decreases items.len(),
{
    let n = until(items, separator) as int;
    lemma_until(items, separator);
    if n < items.len() {
        let rest = items.skip(n + 1);
        split_then_join(rest, separator);
        let pieces = split_on(items, separator);
        lemma_split_nonempty(rest, separator);
        assert(pieces.drop_first() == split_on(rest, separator));
        assert(items.take(n).push(separator) + rest == items);
    } else {
        assert(split_on(items, separator) == seq![items]);
    }
}

/// No piece of a split holds the separator.
pub proof fn pieces_hold_no_separator<T>(items: Seq<T>, separator: T, i: int)
    requires
        0 <= i < split_on(items, separator).len(),
    ensures
        !split_on(items, separator)[i].contains(separator),
    decreases items.len(),
{
    let n = until(items, separator) as int;
    lemma_until(items, separator);
    if n < items.len() {
        if i > 0 {
            pieces_hold_no_separator(items.skip(n + 1), separator, i - 1);
        }
    }
}

/// A line without the carriage return that belongs to its line ending.
pub open spec fn without_return(line: Seq<char>) -> Seq<char> {
    if line.len() > 0 && line.last() == '\r' {
        line.drop_last()
    } else {
        line
    }
}

/// The lines of `text`: what stands before each line ending, which is a line
/// feed with an optional carriage return before it, and what follows the last
/// line ending where that is not empty.
pub open spec fn lines(text: Seq<char>) -> Seq<Seq<char>> {
    let pieces = split_on(text, '\n');
    let ended = pieces.drop_last().map_values(|piece: Seq<char>| without_return(piece));
    if pieces.last().len() == 0 {
        ended
    } else {
        ended.push(pieces.last())
    }
}

/// The lines of `chars`.
pub fn split_lines(chars: &[char]) -> (result: Vec<Vec<char>>)
    ensures
        result@.len() == lines(chars@).len(),
        forall|i: int| 0 <= i < result@.len() ==> (#[trigger] result@[i])@ == lines(chars@)[i],
{
    let pieces = split_chars(chars, '\n');
    proof {
        lemma_split_nonempty(chars@, '\n');
    }
    let mut result: Vec<Vec<char>> = Vec::new();
    let last: usize = pieces.len() - 1;
    for i in 0..last
        invariant
            last + 1 == pieces@.len(),
            pieces@.len() == split_on(chars@, '\n').len(),
            forall|j: int| 0 <= j < pieces@.len() ==> (#[trigger] pieces@[j])@ == split_on(
                chars@,
                '\n',
            )[j],
            result@.len() == i,
            forall|j: int| 0 <= j < i ==> (#[trigger] result@[j])@ == without_return(
                split_on(chars@, '\n')[j],
            ),
    {
        let piece = &pieces[i];
        let mut end: usize = piece.len();
        if end > 0 && piece[end - 1] == '\r' {
            end = end - 1;
        }
        assert(pieces@[i as int]@ == split_on(chars@, '\n')[i as int]);
        assert(piece@.subrange(0, end as int) == without_return(piece@));
        result.push(slice_to_vec(slice_subrange(piece, 0, end)));
    }
    let tail = &pieces[last];
    assert(pieces@[last as int]@ == split_on(chars@, '\n').last());
    if tail.len() > 0 {
        result.push(slice_to_vec(tail));
    }
    result
}

/// The number of leading characters that are not ASCII white space.
pub open spec fn word_len(text: Seq<char>) -> nat
    decreases text.len(),
{
    if text.len() == 0 || text::is_ascii_space(text[0]) {
        0
    } else {
        1 + word_len(text.drop_first())
    }
}

/// The maximal runs of characters that are not ASCII white space.
pub open spec fn fields(text: Seq<char>) -> Seq<Seq<char>>
    decreases text.len(),
{
    if text.len() == 0 {
        seq![]
    } else if text::is_ascii_space(text[0]) {
        fields(text.drop_first())
    } else {
        let n = word_len(text) as int;
        if 0 < n <= text.len() {
            seq![text.take(n)] + fields(text.skip(n))
        } else {
            seq![]
        }
    }
}

/// A word ends at the first ASCII white space, or at the end.
pub proof fn lemma_word_len_is(text: Seq<char>, n: int)
    requires
        0 <= n <= text.len(),
        forall|i: int| 0 <= i < n ==> !text::is_ascii_space(#[trigger] text[i]),
        n < text.len() ==> text::is_ascii_space(text[n]),
    ensures
        word_len(text) == n,
    decreases text.len(),
{
    if n > 0 {
        let rest = text.drop_first();
        assert forall|i: int| 0 <= i < n - 1 implies !text::is_ascii_space(#[trigger] rest[i]) by {
            assert(rest[i] == text[i + 1]);
        }
        lemma_word_len_is(rest, n - 1);
    }
}

/// The position and length of each field of `chars`.
pub fn field_bounds(chars: &[char]) -> (bounds: Vec<(usize, usize)>)
    ensures
        bounds@.len() == fields(chars@).len(),
        forall|i: int|
            0 <= i < bounds@.len() ==> {
                &&& (#[trigger] bounds@[i]).0 <= bounds@[i].1 <= chars@.len()
                &&& chars@.subrange(bounds@[i].0 as int, bounds@[i].1 as int) == fields(chars@)[i]
            },
{
    let mut bounds: Vec<(usize, usize)> = Vec::new();
    let mut at: usize = 0;
    let ghost whole = fields(chars@);
    assert(chars@.skip(0) == chars@);
    while at < chars.len()
        invariant
            at <= chars@.len(),
            whole == fields(chars@),
            bounds@.len() <= whole.len(),
            whole.skip(bounds@.len() as int) == fields(chars@.skip(at as int)),
            forall|i: int|
                0 <= i < bounds@.len() ==> {
                    &&& (#[trigger] bounds@[i]).0 <= bounds@[i].1 <= chars@.len()
                    &&& chars@.subrange(bounds@[i].0 as int, bounds@[i].1 as int) == whole[i]
                },
        decreases chars@.len() - at,
    {
        let ghost rest = chars@.skip(at as int);
        if ascii_space(chars[at]) {
            assert(rest.drop_first() == chars@.skip(at + 1));
            at = at + 1;
            continue;
        }
        let start: usize = at;
        while at < chars.len() && !ascii_space(chars[at])
            invariant
                start <= at <= chars@.len(),
                forall|i: int| start <= i < at ==> !text::is_ascii_space(#[trigger] chars@[i]),
            decreases chars@.len() - at,
        {
            at = at + 1;
        }
        let ghost n = at - start;
        proof {
            assert forall|i: int| 0 <= i < n implies !text::is_ascii_space(#[trigger] rest[i]) by {
                assert(rest[i] == chars@[start + i]);
            }
            lemma_word_len_is(rest, n);
            assert(rest.take(n) == chars@.subrange(start as int, at as int));
            assert(rest.skip(n) == chars@.skip(at as int));
            let before = whole.skip(bounds@.len() as int);
            assert(before == seq![rest.take(n)] + fields(rest.skip(n)));
            assert(before[0] == whole[bounds@.len() as int]);
            assert(before.skip(1) == fields(chars@.skip(at as int)));
            assert(before.skip(1) == whole.skip(bounds@.len() as int + 1));
        }
        bounds.push((start, at));
    }
    assert(chars@.skip(at as int).len() == 0);
    assert(whole.skip(bounds@.len() as int).len() == 0);
    bounds
}

/// The fields of `chars`.
pub fn split_fields(chars: &[char]) -> (result: Vec<Vec<char>>)
    ensures
        result@.len() == fields(chars@).len(),
        forall|i: int| 0 <= i < result@.len() ==> (#[trigger] result@[i])@ == fields(chars@)[i],
{
    let bounds = field_bounds(chars);
    let mut result: Vec<Vec<char>> = Vec::new();
    for i in 0..bounds.len()
        invariant
            bounds@.len() == fields(chars@).len(),
            forall|i: int|
                0 <= i < bounds@.len() ==> {
                    &&& (#[trigger] bounds@[i]).0 <= bounds@[i].1 <= chars@.len()
                    &&& chars@.subrange(bounds@[i].0 as int, bounds@[i].1 as int) == fields(
                        chars@,
                    )[i]
                },
            result@.len() == i,
            forall|j: int| 0 <= j < i ==> (#[trigger] result@[j])@ == fields(chars@)[j],
    {
        let bound = bounds[i];
        result.push(slice_to_vec(slice_subrange(chars, bound.0, bound.1)));
    }
    result
}

/// `text` without the white space before its first other character.
pub open spec fn trim_start(text: Seq<char>) -> Seq<char>
    decreases text.len(),
{
    if text.len() > 0 && text::is_white_space(text[0]) {
        trim_start(text.drop_first())
    } else {
        text
    }
}

/// `text` without the white space behind its last other character.
pub open spec fn trim_end(text: Seq<char>) -> Seq<char>
    decreases text.len(),
{
    if text.len() > 0 && text::is_white_space(text.last()) {
        trim_end(text.drop_last())
    } else {
        text
    }
}

/// `text` without the white space around it.
pub open spec fn trim(text: Seq<char>) -> Seq<char> {
    trim_end(trim_start(text))
}

/// `chars` without the white space around them.
pub fn trimmed(chars: &[char]) -> (result: &[char])
    ensures
        result@ == trim(chars@),
{
    let mut start: usize = 0;
    assert(chars@.skip(0) == chars@);
    while start < chars.len() && white_space(chars[start])
        invariant
            start <= chars@.len(),
            trim_start(chars@.skip(start as int)) == trim_start(chars@),
        decreases chars@.len() - start,
    {
        assert(chars@.skip(start as int).drop_first() == chars@.skip(start + 1));
        start = start + 1;
    }
    assert(trim_start(chars@) == chars@.skip(start as int));
    let mut end: usize = chars.len();
    assert(chars@.subrange(start as int, end as int) == chars@.skip(start as int));
    while end > start && white_space(chars[end - 1])
        invariant
            start <= end <= chars@.len(),
            trim_end(chars@.subrange(start as int, end as int)) == trim_end(
                chars@.skip(start as int),
            ),
        decreases end,
    {
        assert(chars@.subrange(start as int, end as int).drop_last() == chars@.subrange(
            start as int,
            end - 1,
        ));
        end = end - 1;
    }
    slice_subrange(chars, start, end)
}

/// Whether `needle` occurs in `text`.
pub open spec fn occurs(text: Seq<char>, needle: Seq<char>) -> bool {
    exists|i: int|
        0 <= i && i + needle.len() <= text.len() && #[trigger] text.subrange(i, i + needle.len())
            == needle
}

/// Whether `literal` occurs in `chars`.
pub fn contains_text(chars: &[char], literal: &str) -> (found: bool)
    ensures
        found == occurs(chars@, literal@),
{
    let needle = chars_of(literal);
    let width: usize = needle.len();
    if width > chars.len() {
        return false;
    }
    let last: usize = chars.len() - width;
    for i in 0..last
        invariant
            needle@ == literal@,
            width == needle@.len(),
            last + width == chars.len(),
            forall|j: int| 0 <= j < i ==> #[trigger] chars@.subrange(j, j + needle@.len())
                != needle@,
    {
        if same_chars(slice_subrange(chars, i, i + width), &needle) {
            return true;
        }
    }
    same_chars(slice_subrange(chars, last, chars.len()), &needle)
}

/// Whether `text` begins with `prefix`.
pub open spec fn begins_with(text: Seq<char>, prefix: Seq<char>) -> bool {
    prefix.len() <= text.len() && text.take(prefix.len() as int) == prefix
}

/// What follows `literal` in `chars`, where they begin with it.
pub fn strip_prefix<'a>(chars: &'a [char], literal: &str) -> (rest: Option<&'a [char]>)
    ensures
        match rest {
            Some(rest) => begins_with(chars@, literal@) && rest@ == chars@.skip(
                literal@.len() as int,
            ),
            None => !begins_with(chars@, literal@),
        },
{
    let prefix = chars_of(literal);
    if prefix.len() > chars.len() {
        return None;
    }
    if same_chars(slice_subrange(chars, 0, prefix.len()), &prefix) {
        Some(slice_subrange(chars, prefix.len(), chars.len()))
    } else {
        None
    }
}

/// `text` with ASCII upper-case letters replaced by their lower-case forms.
pub open spec fn lower(text: Seq<char>) -> Seq<char> {
    text.map_values(|c: char| lower_char(c))
}

/// The lower-case form of an ASCII letter; any other character itself.
pub open spec fn lower_char(c: char) -> char {
    if 'A' <= c <= 'Z' {
        (c as u32 + 32) as char
    } else {
        c
    }
}

/// `chars` with ASCII upper-case letters replaced by their lower-case forms.
pub fn lowered(chars: &[char]) -> (result: Vec<char>)
    ensures
        result@ == lower(chars@),
{
    let mut result: Vec<char> = Vec::new();
    for i in 0..chars.len()
        invariant
            result@.len() == i,
            forall|j: int| 0 <= j < i ==> result@[j] == lower_char(chars@[j]),
    {
        result.push(lowered_char(chars[i]));
    }
    assert(result@ =~= lower(chars@));
    result
}

/// The lower-case form of an ASCII letter; any other character itself.
pub fn lowered_char(c: char) -> (result: char)
    ensures
        result == lower_char(c),
{
    match c {
        'A' => 'a',
        'B' => 'b',
        'C' => 'c',
        'D' => 'd',
        'E' => 'e',
        'F' => 'f',
        'G' => 'g',
        'H' => 'h',
        'I' => 'i',
        'J' => 'j',
        'K' => 'k',
        'L' => 'l',
        'M' => 'm',
        'N' => 'n',
        'O' => 'o',
        'P' => 'p',
        'Q' => 'q',
        'R' => 'r',
        'S' => 's',
        'T' => 't',
        'U' => 'u',
        'V' => 'v',
        'W' => 'w',
        'X' => 'x',
        'Y' => 'y',
        'Z' => 'z',
        _ => c,
    }
}

} // verus!
