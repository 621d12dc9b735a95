//! Text as sequences of Unicode scalar values, and the operations on it that
//! the parsers of this library are stated with.

use vstd::prelude::*;
use vstd::utf8::*;

verus! {

// ---------------------------------------------------------------------------
// Bytes and characters
// ---------------------------------------------------------------------------

/// The length of `text` in UTF-8 bytes.
pub open spec fn byte_len(text: Seq<char>) -> nat {
    encode_utf8(text).len()
}

/// The length of `text` in UTF-8 bytes.
pub fn len_in_bytes(text: &str) -> (length: usize)
    ensures
        length == byte_len(text@),
{
    text.as_bytes().len()
}

/// `std::str::from_utf8`: text exists exactly for the byte sequences that are
/// valid UTF-8, and its encoding is the byte sequence itself.
#[verifier::external_body]
fn utf8_text(bytes: &[u8]) -> (text: Option<&str>)
    ensures
        text is Some <==> valid_utf8(bytes@),
        text matches Some(text) ==> encode_utf8(text@) == bytes@,
{
    std::str::from_utf8(bytes).ok()
}

/// `String::push`: appends one character.
pub assume_specification[ std::string::String::push ](s: &mut String, ch: char)
    ensures
        final(s)@ == old(s)@.push(ch),
;

/// The text that `bytes` encode, or `None` where they are not valid UTF-8.
pub open spec fn decoded(bytes: Seq<u8>) -> Option<Seq<char>> {
    if valid_utf8(bytes) {
        Some(decode_utf8(bytes))
    } else {
        None
    }
}

/// Decodes UTF-8 bytes into their characters.
pub fn decode_chars(bytes: &[u8]) -> (chars: Option<Vec<char>>)
    ensures
        match chars {
            Some(chars) => decoded(bytes@) == Some(chars@),
            None => decoded(bytes@) is None,
        },
{
    match utf8_text(bytes) {
        Some(text) => {
            proof {
                encode_utf8_decode_utf8(text@);
            }
            Some(chars_of(text))
        },
        None => None,
    }
}

/// The characters of `text`, one element each.
pub fn chars_of(text: &str) -> (chars: Vec<char>)
    ensures
        chars@ == text@,
{
    let mut chars: Vec<char> = Vec::new();
    for c in it: text.chars()
        invariant
            chars@ == it.seq().take(it.index()),
            it.seq() == text@,
    {
        chars.push(c);
    }
    chars
}

/// The string that holds `chars`.
pub fn string_of(chars: &[char]) -> (text: String)
    ensures
        text@ == chars@,
{
    let mut text = String::new();
    for i in 0..chars.len()
        invariant
            text@ == chars@.take(i as int),
    {
        text.push(chars[i]);
        assert(chars@.take(i + 1) == chars@.take(i as int).push(chars@[i as int]));
    }
    assert(chars@.take(chars@.len() as int) == chars@);
    text
}

/// Whether two strings hold the same characters.
pub fn same_text(left: &str, right: &str) -> (same: bool)
    ensures
        same == (left@ == right@),
{
    let a = left.as_bytes();
    let b = right.as_bytes();
    proof {
        encode_utf8_decode_utf8(left@);
        encode_utf8_decode_utf8(right@);
    }
    same_bytes(a, b)
}

/// Whether two byte strings are equal.
pub fn same_bytes(left: &[u8], right: &[u8]) -> (same: bool)
    ensures
        same == (left@ == right@),
{
    if left.len() != right.len() {
        return false;
    }
    for i in 0..left.len()
        invariant
            left@.len() == right@.len(),
            forall|j: int| 0 <= j < i ==> left@[j] == right@[j],
    {
        if left[i] != right[i] {
            return false;
        }
    }
    assert(left@ =~= right@);
    true
}

/// Whether two character sequences are equal.
pub fn same_chars(left: &[char], right: &[char]) -> (same: bool)
    ensures
        same == (left@ == right@),
{
    if left.len() != right.len() {
        return false;
    }
    for i in 0..left.len()
        invariant
            left@.len() == right@.len(),
            forall|j: int| 0 <= j < i ==> left@[j] == right@[j],
    {
        if left[i] != right[i] {
            return false;
        }
    }
    assert(left@ =~= right@);
    true
}

/// Whether `chars` spell `literal`.
pub fn spells(chars: &[char], literal: &str) -> (same: bool)
    ensures
        same == (chars@ == literal@),
{
    let expected = chars_of(literal);
    same_chars(chars, &expected)
}

// ---------------------------------------------------------------------------
// Character classes
// ---------------------------------------------------------------------------

/// The control characters: general category Cc.
pub open spec fn is_control(c: char) -> bool {
    (c as u32) <= 0x1f || 0x7f <= (c as u32) <= 0x9f
}

/// The characters with the Unicode property White_Space.
pub open spec fn is_white_space(c: char) -> bool {
    let code = c as u32;
    ||| 0x09 <= code <= 0x0d
    ||| code == 0x20
    ||| code == 0x85
    ||| code == 0xa0
    ||| code == 0x1680
    ||| 0x2000 <= code <= 0x200a
    ||| code == 0x2028
    ||| code == 0x2029
    ||| code == 0x202f
    ||| code == 0x205f
    ||| code == 0x3000
}

/// The ASCII characters that separate fields.
pub open spec fn is_ascii_space(c: char) -> bool {
    c == ' ' || c == '\t' || c == '\n' || c == '\x0c' || c == '\r'
}

/// ASCII letters and digits.
pub open spec fn is_alphanumeric(c: char) -> bool {
    ('0' <= c <= '9') || ('a' <= c <= 'z') || ('A' <= c <= 'Z')
}

/// The printable ASCII characters without the space.
pub open spec fn is_graphic(c: char) -> bool {
    '!' <= c <= '~'
}

pub fn control(c: char) -> (holds: bool)
    ensures
        holds == is_control(c),
{
    let code: u32 = c as u32;
    code <= 0x1f || (0x7f <= code && code <= 0x9f)
}

pub fn white_space(c: char) -> (holds: bool)
    ensures
        holds == is_white_space(c),
{
    let code: u32 = c as u32;
    (0x09 <= code && code <= 0x0d) || code == 0x20 || code == 0x85 || code == 0xa0 || code == 0x1680
        || (0x2000 <= code && code <= 0x200a) || code == 0x2028 || code == 0x2029 || code == 0x202f
        || code == 0x205f || code == 0x3000
}

pub fn ascii_space(c: char) -> (holds: bool)
    ensures
        holds == is_ascii_space(c),
{
    c == ' ' || c == '\t' || c == '\n' || c == '\x0c' || c == '\r'
}

/// Whether `c` is an ASCII letter or digit.
pub fn alphanumeric(c: char) -> (holds: bool)
    ensures
        holds == is_alphanumeric(c),
{
    ('0' <= c && c <= '9') || ('a' <= c && c <= 'z') || ('A' <= c && c <= 'Z')
}

/// Whether `text` holds a control character.
pub open spec fn has_control(text: Seq<char>) -> bool {
    exists|i: int| 0 <= i < text.len() && is_control(#[trigger] text[i])
}

/// Whether `chars` hold a control character.
pub fn contains_control(chars: &[char]) -> (found: bool)
    ensures
        found == has_control(chars@),
{
    for i in 0..chars.len()
        invariant
            forall|j: int| 0 <= j < i ==> !is_control(#[trigger] chars@[j]),
    {
        if control(chars[i]) {
            return true;
        }
    }
    false
}

/// Whether every character of `text` is printable ASCII without the space.
pub open spec fn all_graphic(text: Seq<char>) -> bool {
    forall|i: int| 0 <= i < text.len() ==> is_graphic(#[trigger] text[i])
}

/// Whether every character is printable ASCII without the space.
pub fn is_all_graphic(chars: &[char]) -> (holds: bool)
    ensures
        holds == all_graphic(chars@),
{
    for i in 0..chars.len()
        invariant
            forall|j: int| 0 <= j < i ==> is_graphic(#[trigger] chars@[j]),
    {
        if !('!' <= chars[i] && chars[i] <= '~') {
            return false;
        }
    }
    true
}

/// Whether every character of `text` is an ASCII letter or digit or occurs in
/// `extra`.
pub open spec fn all_in_word_set(text: Seq<char>, extra: Seq<char>) -> bool {
    forall|i: int|
        0 <= i < text.len() ==> is_alphanumeric(#[trigger] text[i]) || extra.contains(text[i])
}

/// Whether every character is an ASCII letter or digit or occurs in `extra`.
pub fn is_all_in_word_set(chars: &[char], extra: &str) -> (holds: bool)
    ensures
        holds == all_in_word_set(chars@, extra@),
{
    let allowed = chars_of(extra);
    for i in 0..chars.len()
        invariant
            allowed@ == extra@,
            forall|j: int|
                0 <= j < i ==> is_alphanumeric(#[trigger] chars@[j]) || extra@.contains(chars@[j]),
    {
        if !alphanumeric(chars[i]) && !holds_char(&allowed, chars[i]) {
            return false;
        }
    }
    true
}

/// Whether `c` occurs in `chars`.
pub fn holds_char(chars: &[char], c: char) -> (found: bool)
    ensures
        found == chars@.contains(c),
{
    for i in 0..chars.len()
        invariant
            forall|j: int| 0 <= j < i ==> chars@[j] != c,
    {
        if chars[i] == c {
            return true;
        }
    }
    false
}

/// What an optional text says.
pub open spec fn optional_text(text: Option<String>) -> Option<Seq<char>> {
    match text {
        Some(text) => Some(text@),
        None => None,
    }
}

/// Whether there is a text, and it says what is expected.
pub open spec fn is_text(value: Option<String>, expected: Seq<char>) -> bool {
    value matches Some(value) && value@ == expected
}

/// Whether there is a text, and it says what is expected.
pub fn optional_is(value: &Option<String>, expected: &str) -> (holds: bool)
    ensures
        holds == is_text(*value, expected@),
{
    match value {
        Some(value) => same_text(value.as_str(), expected),
        None => false,
    }
}

/// What strings say.
pub open spec fn string_views(strings: Seq<String>) -> Seq<Seq<char>> {
    strings.map_values(|string: String| string@)
}

/// What byte vectors hold.
pub open spec fn byte_views(items: Seq<Vec<u8>>) -> Seq<Seq<u8>> {
    items.map_values(|item: Vec<u8>| item@)
}

} // verus!
