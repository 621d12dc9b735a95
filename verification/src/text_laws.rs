//! What the words mean that texts are taken apart with: which characters count as
//! what, where lines, fields and margins end, and what digits are worth.

use crate::number;
use crate::number::{numbered, parse_unsigned};
use crate::scan;
use crate::scan::{
    contains_text, lowered_char, split_fields, split_lines, strip_prefix, trimmed,
};
use crate::text;
use crate::text::{alphanumeric, ascii_space, control, decode_chars, len_in_bytes, white_space};
use vstd::prelude::*;
use vstd::utf8::{encode_utf8, valid_utf8};

verus! {

// ---------------------------------------------------------------------------
// Characters
// ---------------------------------------------------------------------------

/// Fields are parted by space, tab, line feed, form feed and carriage return.
pub proof fn fields_are_parted_by_five_characters(c: char, parts: bool)
    requires
        call_ensures(ascii_space, (c,), parts),
    ensures
        parts <==> c as u32 == 0x20 || c as u32 == 0x09 || c as u32 == 0x0a || c as u32 == 0x0c
            || c as u32 == 0x0d,
{
}

/// Margins are made of the characters that Unicode calls white space.
pub proof fn margins_are_white_space(c: char, white: bool)
    requires
        call_ensures(white_space, (c,), white),
    ensures
        white <==> {
            let code = c as u32;
            ||| 0x09 <= code <= 0x0d
            ||| code == 0x20 || code == 0x85 || code == 0xa0 || code == 0x1680
            ||| 0x2000 <= code <= 0x200a
            ||| code == 0x2028 || code == 0x2029 || code == 0x202f || code == 0x205f || code
                == 0x3000
        },
{
}

/// Control characters are the two blocks of thirty-two, and delete.
pub proof fn controls_are_two_blocks_and_delete(c: char, is: bool)
    requires
        call_ensures(control, (c,), is),
    ensures
        is <==> (c as u32) < 0x20 || 0x7f <= (c as u32) < 0xa0,
{
}

/// Letters and digits are those of ASCII.
pub proof fn letters_and_digits_are_ascii(c: char, is: bool)
    requires
        call_ensures(alphanumeric, (c,), is),
    ensures
        is <==> 0x30 <= (c as u32) <= 0x39 || 0x41 <= (c as u32) <= 0x5a || 0x61 <= (c as u32)
            <= 0x7a,
{
}

/// Lowering moves capital letters by thirty-two and leaves all else.
pub proof fn lowering_moves_capitals_only(c: char, low: char)
    requires
        call_ensures(lowered_char, (c,), low),
    ensures
        0x41 <= (c as u32) <= 0x5a ==> low as u32 == c as u32 + 0x20,
        !(0x41 <= (c as u32) <= 0x5a) ==> low == c,
{
}

/// Lengths are counted in bytes of UTF-8, and text is what bytes of UTF-8 decode to.
pub proof fn bytes_are_utf8(
    said: &str,
    length: usize,
    bytes: &[u8],
    chars: Option<Vec<char>>,
)
    requires
        call_ensures(len_in_bytes, (said,), length),
        call_ensures(decode_chars, (bytes,), chars),
    ensures
        length == encode_utf8(said@).len(),
        chars is Some <==> valid_utf8(bytes@),
        chars matches Some(chars) ==> encode_utf8(chars@) == bytes@,
{
    if valid_utf8(bytes@) {
        vstd::utf8::decode_utf8_encode_utf8(bytes@);
    }
}

// ---------------------------------------------------------------------------
// Lines, fields, margins
// ---------------------------------------------------------------------------

/// A text without a line feed is one line, or none where it is empty. A text with
/// one is the line before the first, without a carriage return at its end, and then
/// the lines of what follows.
pub proof fn lines_end_at_line_feeds(first: Seq<char>, rest: Seq<char>)
    requires
        !first.contains('\n'),
    ensures
        scan::lines(first) == if first.len() == 0 {
            seq![]
        } else {
            seq![first]
        },
        scan::lines(first + seq!['\n'] + rest) == seq![
            if first.len() > 0 && first.last() == '\r' {
                first.drop_last()
            } else {
                first
            },
        ] + scan::lines(rest),
{
    let n = first.len() as int;
    assert forall|i: int| 0 <= i < n implies first[i] != '\n' by {
        if first[i] == '\n' {
            assert(first.contains('\n'));
        }
    }
    scan::lemma_until_is(first, '\n', n);
    assert(scan::split_on(first, '\n') == seq![first]);
    assert(seq![first].drop_last() =~= seq![]);
    let none: Seq<Seq<char>> = seq![];
    assert(none.map_values(|piece: Seq<char>| scan::without_return(piece)) =~= none);
    if first.len() == 0 {
        assert(scan::lines(first) =~= seq![]);
    } else {
        assert(scan::lines(first) =~= seq![first]);
    }
    let whole = first + seq!['\n'] + rest;
    scan::lemma_until_is(whole, '\n', n);
    assert(whole.take(n) =~= first);
    assert(whole.skip(n + 1) =~= rest);
    let pieces = scan::split_on(whole, '\n');
    let tail = scan::split_on(rest, '\n');
    scan::lemma_split_nonempty(rest, '\n');
    assert(pieces == seq![first] + tail);
    assert(pieces.last() == tail.last());
    assert(pieces.drop_last() =~= seq![first] + tail.drop_last());
    let cut = |piece: Seq<char>| scan::without_return(piece);
    assert(pieces.drop_last().map_values(cut) =~= seq![scan::without_return(first)]
        + tail.drop_last().map_values(cut));
    assert(scan::lines(whole) =~= seq![scan::without_return(first)] + scan::lines(rest));
}

/// The lines that are read are those lines.
pub proof fn lines_are_read(chars: &[char], read: Vec<Vec<char>>)
    requires
        call_ensures(split_lines, (chars,), read),
    ensures
        read@.map_values(|line: Vec<char>| line@) == scan::lines(chars@),
{
    assert(read@.map_values(|line: Vec<char>| line@) =~= scan::lines(chars@));
}

/// Whether every character parts fields.
pub open spec fn all_spaces(text: Seq<char>) -> bool {
    forall|i: int| 0 <= i < text.len() ==> text::is_ascii_space(#[trigger] text[i])
}

/// Whether no character parts fields.
pub open spec fn no_spaces(text: Seq<char>) -> bool {
    forall|i: int| 0 <= i < text.len() ==> !text::is_ascii_space(#[trigger] text[i])
}

/// Spaces have no fields. A text that begins with spaces and a word has that word
/// as its first field, and then the fields of what follows the word.
pub proof fn fields_are_words(spaces: Seq<char>, word: Seq<char>, rest: Seq<char>)
    requires
        all_spaces(spaces),
        word.len() > 0 && no_spaces(word),
        rest.len() > 0 ==> text::is_ascii_space(rest[0]),
    ensures
        scan::fields(spaces) == Seq::<Seq<char>>::empty(),
        scan::fields(spaces + word + rest) == seq![word] + scan::fields(rest),
    decreases spaces.len(),
{
    let whole = spaces + word + rest;
    if spaces.len() > 0 {
        let fewer = spaces.drop_first();
        assert forall|i: int| 0 <= i < fewer.len() implies text::is_ascii_space(
            #[trigger] fewer[i],
        ) by {
            assert(fewer[i] == spaces[i + 1]);
        }
        fields_are_words(fewer, word, rest);
        assert(text::is_ascii_space(spaces[0]));
        assert(whole.drop_first() =~= fewer + word + rest);
    } else {
        let n = word.len() as int;
        assert forall|i: int| 0 <= i < n implies !text::is_ascii_space(#[trigger] whole[i]) by {
            assert(whole[i] == word[i]);
        }
        assert(n < whole.len() ==> whole[n] == rest[0]);
        scan::lemma_word_len_is(whole, n);
        assert(whole.take(n) =~= word);
        assert(whole.skip(n) =~= rest);
    }
}

/// The fields that are read are those words.
pub proof fn fields_are_read(chars: &[char], read: Vec<Vec<char>>)
    requires
        call_ensures(split_fields, (chars,), read),
    ensures
        read@.map_values(|field: Vec<char>| field@) == scan::fields(chars@),
{
    assert(read@.map_values(|field: Vec<char>| field@) =~= scan::fields(chars@));
}

/// Whether every character is white space.
pub open spec fn all_white(text: Seq<char>) -> bool {
    forall|i: int| 0 <= i < text.len() ==> text::is_white_space(#[trigger] text[i])
}

proof fn lemma_trim_start(left: Seq<char>, core: Seq<char>)
    requires
        all_white(left),
        core.len() > 0 ==> !text::is_white_space(core[0]),
    ensures
        scan::trim_start(left + core) == core,
    decreases left.len(),
{
    if left.len() > 0 {
        let fewer = left.drop_first();
        assert forall|i: int| 0 <= i < fewer.len() implies text::is_white_space(
            #[trigger] fewer[i],
        ) by {
            assert(fewer[i] == left[i + 1]);
        }
        assert(text::is_white_space(left[0]));
        lemma_trim_start(fewer, core);
        assert((left + core).drop_first() =~= fewer + core);
    } else {
        assert(left + core =~= core);
    }
}

proof fn lemma_trim_end(core: Seq<char>, right: Seq<char>)
    requires
        all_white(right),
        core.len() > 0 ==> !text::is_white_space(core.last()),
    ensures
        scan::trim_end(core + right) == core,
    decreases right.len(),
{
    if right.len() > 0 {
        let fewer = right.drop_last();
        assert forall|i: int| 0 <= i < fewer.len() implies text::is_white_space(
            #[trigger] fewer[i],
        ) by {
            assert(fewer[i] == right[i]);
        }
        assert(text::is_white_space(right[right.len() - 1]));
        lemma_trim_end(core, fewer);
        assert((core + right).drop_last() =~= core + fewer);
        assert((core + right).last() == right.last());
    } else {
        assert(core + right =~= core);
    }
}

/// Trimming takes the margins off, and nothing else.
pub proof fn trimming_takes_margins_off(left: Seq<char>, core: Seq<char>, right: Seq<char>)
    requires
        all_white(left),
        all_white(right),
        core.len() > 0 ==> !text::is_white_space(core[0]) && !text::is_white_space(core.last()),
    ensures
        scan::trim(left + core + right) == core,
{
    let inner = core + right;
    assert(left + core + right =~= left + inner);
    if core.len() > 0 {
        assert(inner[0] == core[0]);
        lemma_trim_start(left, inner);
        lemma_trim_end(core, right);
    } else {
        let both = left + right;
        assert(left + core + right =~= both + core);
        assert forall|i: int| 0 <= i < both.len() implies text::is_white_space(
            #[trigger] both[i],
        ) by {
            if i < left.len() {
                assert(both[i] == left[i]);
            } else {
                assert(both[i] == right[i - left.len()]);
            }
        }
        lemma_trim_start(both, core);
        assert(scan::trim_end(core) == core);
    }
}

/// Every text is a margin, what trimming leaves of it, and a margin.
pub proof fn texts_have_margins(text: Seq<char>) -> (margins: (Seq<char>, Seq<char>))
    ensures
        all_white(margins.0) && all_white(margins.1),
        text == margins.0 + scan::trim(text) + margins.1,
        scan::trim(text).len() > 0 ==> !text::is_white_space(scan::trim(text)[0])
            && !text::is_white_space(scan::trim(text).last()),
{
    let (left, rest) = lemma_left_margin(text);
    let right = lemma_right_margin(rest);
    assert(text =~= left + scan::trim(text) + right);
    let core = scan::trim(text);
    if core.len() > 0 {
        assert(core[0] == rest[0]);
    }
    (left, right)
}

proof fn lemma_left_margin(text: Seq<char>) -> (parts: (Seq<char>, Seq<char>))
    ensures
        all_white(parts.0),
        parts.1 == scan::trim_start(text),
        text == parts.0 + parts.1,
        parts.1.len() > 0 ==> !text::is_white_space(parts.1[0]),
    decreases text.len(),
{
    if text.len() > 0 && text::is_white_space(text[0]) {
        let (left, rest) = lemma_left_margin(text.drop_first());
        let whole = seq![text[0]] + left;
        assert(text.drop_first() == left + rest);
        assert(text =~= seq![text[0]] + text.drop_first());
        assert(text =~= whole + rest);
        assert forall|i: int| 0 <= i < whole.len() implies text::is_white_space(
            #[trigger] whole[i],
        ) by {
            if i > 0 {
                assert(whole[i] == left[i - 1]);
            }
        }
        (whole, rest)
    } else {
        assert(text =~= Seq::<char>::empty() + text);
        (Seq::empty(), text)
    }
}

proof fn lemma_right_margin(text: Seq<char>) -> (right: Seq<char>)
    ensures
        all_white(right),
        text == scan::trim_end(text) + right,
        scan::trim_end(text).len() > 0 ==> !text::is_white_space(scan::trim_end(text).last())
            && scan::trim_end(text)[0] == text[0],
    decreases text.len(),
{
    if text.len() > 0 && text::is_white_space(text.last()) {
        let fewer = lemma_right_margin(text.drop_last());
        let right = fewer.push(text.last());
        assert(text.drop_last() == scan::trim_end(text) + fewer);
        assert(text =~= text.drop_last().push(text.last()));
        assert(text =~= scan::trim_end(text) + right);
        assert forall|i: int| 0 <= i < right.len() implies text::is_white_space(
            #[trigger] right[i],
        ) by {
            if i < fewer.len() {
                assert(right[i] == fewer[i]);
            }
        }
        right
    } else {
        assert(text =~= text + Seq::<char>::empty());
        Seq::empty()
    }
}

/// What is trimmed, found and stripped is so.
pub proof fn texts_are_trimmed_found_and_stripped(
    chars: &[char],
    literal: &str,
    core: &[char],
    found: bool,
    stripped: Option<&[char]>,
)
    requires
        call_ensures(trimmed, (chars,), core),
        call_ensures(contains_text, (chars, literal), found),
        call_ensures(strip_prefix, (chars, literal), stripped),
    ensures
        core@ == scan::trim(chars@),
        found <==> exists|before: Seq<char>, after: Seq<char>|
            chars@ == #[trigger] (before + literal@ + after),
        stripped matches Some(rest) ==> chars@ == literal@ + rest@,
        stripped is None ==> forall|rest: Seq<char>| chars@ != #[trigger] (literal@ + rest),
{
    if found {
        let i = choose|i: int|
            0 <= i && i + literal@.len() <= chars@.len() && #[trigger] chars@.subrange(
                i,
                i + literal@.len(),
            ) == literal@;
        let before = chars@.take(i);
        let after = chars@.skip(i + literal@.len());
        assert(chars@ =~= before + literal@ + after);
    }
    if exists|before: Seq<char>, after: Seq<char>|
        chars@ == #[trigger] (before + literal@ + after) {
        let (before, after) = choose|before: Seq<char>, after: Seq<char>|
            chars@ == #[trigger] (before + literal@ + after);
        let i = before.len() as int;
        assert(chars@.subrange(i, i + literal@.len()) =~= literal@);
    }
    match stripped {
        Some(rest) => {
            assert(chars@ =~= literal@ + rest@);
        },
        None => {
            assert forall|rest: Seq<char>| chars@ != #[trigger] (literal@ + rest) by {
                if chars@ == literal@ + rest {
                    assert(chars@.take(literal@.len() as int) =~= literal@);
                }
            }
        },
    }
}

// ---------------------------------------------------------------------------
// Numbers
// ---------------------------------------------------------------------------

/// The digits of a number: each stands for what follows it, tenfold.
pub proof fn digits_are_decimal(n: nat, d: nat)
    requires
        d < 10,
    ensures
        n < 10 ==> number::decimal(n) == seq![(0x30 + n) as char],
        n > 0 ==> number::decimal(10 * n + d) == number::decimal(n) + seq![(0x30 + d) as char],
{
    if n > 0 {
        assert((10 * n + d) / 10 == n && (10 * n + d) % 10 == d);
        assert(number::decimal(10 * n + d) =~= number::decimal(n) + seq![(0x30 + d) as char]);
    }
}

/// The value of a hexadecimal digit, and of a decimal one.
pub open spec fn worth(c: char, radix: nat) -> int {
    let code = c as u32;
    if 0x30 <= code <= 0x39 {
        code - 0x30
    } else if radix == 16 && 0x61 <= code <= 0x66 {
        code - 0x61 + 10
    } else if radix == 16 && 0x41 <= code <= 0x46 {
        code - 0x41 + 10
    } else {
        -1
    }
}

/// What a run of digits is worth.
pub open spec fn worth_of(digits: Seq<char>, radix: nat) -> int
    decreases digits.len(),
{
    if digits.len() == 0 {
        0
    } else {
        worth_of(digits.drop_last(), radix) * radix + worth(digits.last(), radix)
    }
}

/// Whether these are digits.
pub open spec fn all_digits(digits: Seq<char>, radix: nat) -> bool {
    forall|i: int| 0 <= i < digits.len() ==> worth(#[trigger] digits[i], radix) >= 0
}

proof fn lemma_worth(c: char, radix: nat)
    requires
        radix == 10 || radix == 16,
    ensures
        number::digit_value(c, radix) is Some <==> worth(c, radix) >= 0,
        number::digit_value(c, radix) matches Some(value) ==> value == worth(c, radix),
{
    assert('0' as u32 == 0x30 && 'a' as u32 == 0x61 && 'A' as u32 == 0x41);
    assert('9' as u32 == 0x39 && 'z' as u32 == 0x7a && 'Z' as u32 == 0x5a);
}

pub(crate) proof fn lemma_worth_of(digits: Seq<char>, radix: nat)
    requires
        radix == 10 || radix == 16,
    ensures
        number::digits_value(digits, radix) is Some <==> all_digits(digits, radix),
        number::digits_value(digits, radix) matches Some(value) ==> value == worth_of(
            digits,
            radix,
        ),
    decreases digits.len(),
{
    if digits.len() > 0 {
        let fewer = digits.drop_last();
        lemma_worth_of(fewer, radix);
        lemma_worth(digits.last(), radix);
        assert(digits.last() == digits[digits.len() - 1]);
        if all_digits(digits, radix) {
            assert forall|i: int| 0 <= i < fewer.len() implies worth(
                #[trigger] fewer[i],
                radix,
            ) >= 0 by {
                assert(fewer[i] == digits[i]);
            }
            assert(worth(digits[digits.len() - 1], radix) >= 0);
        } else if all_digits(fewer, radix) && worth(digits.last(), radix) >= 0 {
            assert forall|i: int| 0 <= i < digits.len() implies worth(
                #[trigger] digits[i],
                radix,
            ) >= 0 by {
                if i < fewer.len() {
                    assert(fewer[i] == digits[i]);
                }
            }
        }
    }
}

/// A number is read exactly from one or more digits, with a plus before them or
/// without, that are worth no more than the most that is allowed; and it is what
/// they are worth.
pub proof fn numbers_are_what_their_digits_are_worth(
    chars: &[char],
    radix: u64,
    maximum: u64,
    value: Option<u64>,
)
    requires
        radix == 10 || radix == 16,
        call_ensures(parse_unsigned, (chars, radix, maximum), value),
    ensures
        ({
            let digits = if chars@.len() > 0 && chars@[0] == '+' {
                chars@.skip(1)
            } else {
                chars@
            };
            &&& value is Some <==> digits.len() > 0 && all_digits(digits, radix as nat)
                && worth_of(digits, radix as nat) <= maximum
            &&& value matches Some(value) ==> value == worth_of(digits, radix as nat)
        }),
{
    let digits = if chars@.len() > 0 && chars@[0] == '+' {
        chars@.drop_first()
    } else {
        chars@
    };
    lemma_worth_of(digits, radix as nat);
    if chars@.len() > 0 && chars@[0] == '+' {
        assert(chars@.skip(1) =~= chars@.drop_first());
    }
}

/// A numbered text is the text and then the number.
pub proof fn numbers_stand_behind_their_text(said: &str, n: u64, numbered_text: String)
    requires
        call_ensures(numbered, (said, n), numbered_text),
    ensures
        numbered_text@ == said@ + number::decimal(n as nat),
        numbered_text@.len() > said@.len(),
{
    number::lemma_decimal_value(n as nat);
}

/// Characters are looked for one by one.
pub proof fn characters_are_looked_for_one_by_one(
    chars: &[char],
    controls: bool,
    graphic: bool,
    extra: &str,
    words: bool,
    c: char,
    found: bool,
)
    requires
        call_ensures(text::contains_control, (chars,), controls),
        call_ensures(text::is_all_graphic, (chars,), graphic),
        call_ensures(text::is_all_in_word_set, (chars, extra), words),
        call_ensures(text::holds_char, (chars, c), found),
    ensures
        controls <==> exists|i: int|
            0 <= i < chars@.len() && ((#[trigger] chars@[i]) as u32 <= 0x1f || 0x7f <= (
            chars@[i] as u32) <= 0x9f),
        graphic <==> forall|i: int| 0 <= i < chars@.len() ==> '!' <= #[trigger] chars@[i] <= '~',
        words <==> forall|i: int|
            0 <= i < chars@.len() ==> '0' <= #[trigger] chars@[i] <= '9' || 'a' <= chars@[i] <= 'z'
                || 'A' <= chars@[i] <= 'Z' || extra@.contains(chars@[i]),
        found <==> exists|i: int| 0 <= i < chars@.len() && #[trigger] chars@[i] == c,
{
}

/// Texts are the same exactly where their characters are.
pub proof fn texts_are_compared_by_their_characters(
    left: &str,
    right: &str,
    same: bool,
    chars: &[char],
    spelled: bool,
    value: &Option<String>,
    is: bool,
    lower: Vec<char>,
)
    requires
        call_ensures(text::same_text, (left, right), same),
        call_ensures(text::spells, (chars, right), spelled),
        call_ensures(text::optional_is, (value, right), is),
        call_ensures(scan::lowered, (chars,), lower),
    ensures
        same <==> left@ == right@,
        spelled <==> chars@ == right@,
        is <==> value is Some && value->0@ == right@,
        lower@.len() == chars@.len(),
        forall|i: int|
            0 <= i < chars@.len() ==> #[trigger] lower@[i] == if 'A' <= chars@[i] <= 'Z' {
                (chars@[i] as u32 + 0x20) as char
            } else {
                chars@[i]
            },
{
}

} // verus!
