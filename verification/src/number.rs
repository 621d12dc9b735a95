//! Numbers as text.

use crate::text::{chars_of, same_chars};
use vstd::prelude::*;

verus! {

/// The decimal digit `d`.
pub open spec fn digit_char(d: nat) -> char {
    ('0' as u32 + d) as char
}

/// `n` in decimal, without leading zeros.
pub open spec fn decimal(n: nat) -> Seq<char>
    decreases n,
{
    if n < 10 {
        seq![digit_char(n)]
    } else {
        decimal(n / 10).push(digit_char(n % 10))
    }
}

/// The value of the digit `c` in `radix`, where it is one.
pub open spec fn digit_value(c: char, radix: nat) -> Option<nat> {
    let code = c as u32;
    let value: int = if '0' <= c <= '9' {
        code - '0' as u32
    } else if 'a' <= c <= 'z' {
        code - 'a' as u32 + 10
    } else if 'A' <= c <= 'Z' {
        code - 'A' as u32 + 10
    } else {
        1000
    };
    if value < radix {
        Some(value as nat)
    } else {
        None
    }
}

/// The value of a sequence of digits in `radix`; no digits are worth zero.
pub open spec fn digits_value(digits: Seq<char>, radix: nat) -> Option<nat>
    decreases digits.len(),
{
    if digits.len() == 0 {
        Some(0)
    } else {
        match (digits_value(digits.drop_last(), radix), digit_value(digits.last(), radix)) {
            (Some(value), Some(digit)) => Some(value * radix + digit),
            _ => None,
        }
    }
}

/// What an unsigned number is read from: an optional plus sign and at least
/// one digit, worth at most `maximum`.
pub open spec fn unsigned(text: Seq<char>, radix: nat, maximum: nat) -> Option<nat> {
    let digits = if text.len() > 0 && text[0] == '+' {
        text.drop_first()
    } else {
        text
    };
    match digits_value(digits, radix) {
        Some(value) if digits.len() > 0 && value <= maximum => Some(value),
        _ => None,
    }
}

fn to_digit_char(d: u64) -> (c: char)
    requires
        d < 10,
    ensures
        c == digit_char(d as nat),
{
    match d {
        0 => '0',
        1 => '1',
        2 => '2',
        3 => '3',
        4 => '4',
        5 => '5',
        6 => '6',
        7 => '7',
        8 => '8',
        _ => '9',
    }
}

/// `n` in decimal.
pub fn to_decimal(n: u64) -> (text: Vec<char>)
    ensures
        text@ == decimal(n as nat),
    decreases n,
{
    if n < 10 {
        let mut text: Vec<char> = Vec::new();
        text.push(to_digit_char(n));
        text
    } else {
        let mut text = to_decimal(n / 10);
        text.push(to_digit_char(n % 10));
        text
    }
}

/// A prefix of digits is worth no more than the whole.
proof fn lemma_prefix_value(digits: Seq<char>, radix: nat, n: int)
    requires
        0 <= n <= digits.len(),
        radix >= 1,
    ensures
        digits_value(digits.take(n), radix) is None ==> digits_value(digits, radix) is None,
        digits_value(digits, radix) matches Some(whole) ==> digits_value(digits.take(n), radix)->0
            <= whole,
    decreases digits.len() - n,
{
    if n == digits.len() {
        assert(digits.take(n) == digits);
    } else {
        lemma_prefix_value(digits, radix, n + 1);
        assert(digits.take(n + 1).drop_last() == digits.take(n));
        if let Some(value) = digits_value(digits.take(n), radix) {
            assert(value * radix >= value) by (nonlinear_arith)
                requires
                    radix >= 1,
                    value >= 0,
            ;
        }
    }
}

fn hex_digit(c: char) -> (digit: Option<u64>)
    ensures
        match digit {
            Some(digit) => digit_value(c, 16) == Some(digit as nat),
            None => digit_value(c, 16) is None,
        },
{
    let code: u32 = c as u32;
    if '0' <= c && c <= '9' {
        Some((code - 48) as u64)
    } else if 'a' <= c && c <= 'f' {
        Some((code - 87) as u64)
    } else if 'A' <= c && c <= 'F' {
        Some((code - 55) as u64)
    } else {
        None
    }
}

/// Reads an unsigned number in `radix`, which is ten or sixteen.
pub fn parse_unsigned(chars: &[char], radix: u64, maximum: u64) -> (value: Option<u64>)
    requires
        radix == 10 || radix == 16,
    ensures
        match value {
            Some(value) => unsigned(chars@, radix as nat, maximum as nat) == Some(value as nat),
            None => unsigned(chars@, radix as nat, maximum as nat) is None,
        },
{
    let start: usize = if chars.len() > 0 && chars[0] == '+' {
        1
    } else {
        0
    };
    let ghost digits = chars@.skip(start as int);
    proof {
        if start == 1 {
            assert(digits == chars@.drop_first());
        } else {
            assert(digits == chars@);
        }
    }
    if start == chars.len() {
        return None;
    }
    let mut value: u64 = 0;
    for i in start..chars.len()
        invariant
            start <= i,
            radix == 10 || radix == 16,
            digits == chars@.skip(start as int),
            digits_value(digits.take(i - start), radix as nat) == Some(value as nat),
            value <= maximum,
            unsigned(chars@, radix as nat, maximum as nat) == (match digits_value(
                digits,
                radix as nat,
            ) {
                Some(v) if digits.len() > 0 && v <= maximum => Some(v),
                _ => None,
            }),
    {
        let ghost n = i - start;
        proof {
            assert(digits.take(n + 1).drop_last() == digits.take(n));
            assert(digits.take(n + 1).last() == chars@[i as int]);
            lemma_prefix_value(digits, radix as nat, n + 1);
        }
        let digit: u64 = match hex_digit(chars[i]) {
            Some(digit) => digit,
            None => {
                return None;
            },
        };
        if digit >= radix {
            return None;
        }
        let scaled: u64 = match value.checked_mul(radix) {
            Some(scaled) => scaled,
            None => {
                return None;
            },
        };
        value = match scaled.checked_add(digit) {
            Some(next) => next,
            None => {
                return None;
            },
        };
        if value > maximum {
            return None;
        }
    }
    assert(digits.take(digits.len() as int) == digits);
    Some(value)
}

/// A number's digits are worth the number.
pub proof fn lemma_decimal_value(n: nat)
    ensures
        digits_value(decimal(n), 10) == Some(n),
        decimal(n).len() > 0,
        '0' <= decimal(n)[0] <= '9',
        n > 0 ==> decimal(n)[0] != '0',
    decreases n,
{
    if n < 10 {
        let one = decimal(n);
        assert(one.drop_last() == Seq::<char>::empty());
        assert(digits_value(one.drop_last(), 10) == Some(0nat));
        assert(digit_value(one.last(), 10) == Some(n));
    } else {
        lemma_decimal_value(n / 10);
        assert(decimal(n).drop_last() == decimal(n / 10));
        assert(digit_value(decimal(n).last(), 10) == Some(n % 10));
        assert(decimal(n)[0] == decimal(n / 10)[0]);
    }
}

/// Writing a number in decimal and reading it back gives the number, as long
/// as it is in range.
pub proof fn decimal_round_trip(n: nat, maximum: nat)
    requires
        n <= maximum,
    ensures
        unsigned(decimal(n), 10, maximum) == Some(n),
{
    lemma_decimal_value(n);
}

/// Different numbers have different decimal text.
pub proof fn decimal_is_injective(a: nat, b: nat)
    requires
        decimal(a) == decimal(b),
    ensures
        a == b,
{
    lemma_decimal_value(a);
    lemma_decimal_value(b);
}

/// Whether `chars` are `n` in decimal.
pub fn is_decimal_of(chars: &[char], n: u64) -> (same: bool)
    ensures
        same == (chars@ == decimal(n as nat)),
{
    let expected = to_decimal(n);
    same_chars(chars, &expected)
}

/// `text` followed by `n` in decimal.
pub fn numbered(text: &str, n: u64) -> (result: String)
    ensures
        result@ == text@ + decimal(n as nat),
{
    let mut chars = chars_of(text);
    let mut digits = to_decimal(n);
    chars.append(&mut digits);
    crate::text::string_of(&chars)
}

} // verus!
