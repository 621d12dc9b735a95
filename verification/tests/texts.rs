use styrn::digest::{push_little_endian, to_hex};
use styrn::error::{require_all, ErrorKind, PlatformError};
use styrn::number::{is_decimal_of, numbered, parse_unsigned, to_decimal};
use styrn::scan::{
    contains_text, field_bounds, lowered, split_chars, split_fields, split_lines, split_units,
    strip_prefix, trimmed,
};
use styrn::text::{
    alphanumeric, ascii_space, chars_of, contains_control, control, decode_chars, holds_char,
    is_all_graphic, is_all_in_word_set, len_in_bytes, same_bytes, same_chars, same_text, spells,
    string_of, white_space,
};

fn chars(text: &str) -> Vec<char> {
    text.chars().collect()
}

fn strings(pieces: Vec<Vec<char>>) -> Vec<String> {
    pieces.into_iter().map(|piece| piece.into_iter().collect()).collect()
}

#[test]
fn pieces_are_cut_at_their_separators() {
    assert_eq!(strings(split_chars(&chars("a,,b"), ',')), ["a", "", "b"]);
    assert_eq!(strings(split_chars(&chars(""), ',')), [""]);
    assert_eq!(split_units(&[1, 0, 2], 0), vec![vec![1], vec![2]]);
    assert_eq!(strings(split_lines(&chars("a\r\nb\n\nc"))), ["a", "b", "", "c"]);
    assert_eq!(strings(split_lines(&chars("a\n"))), ["a"]);
    assert_eq!(strings(split_fields(&chars("  a b\tc "))), ["a", "b", "c"]);
    assert_eq!(field_bounds(&chars(" ab c")), vec![(1, 3), (4, 5)]);
    assert_eq!(trimmed(&chars(" \u{2003}a b ")), chars("a b"));
    assert!(contains_text(&chars("STATE : 4 RUNNING"), "RUNNING"));
    assert!(!contains_text(&chars("RUNNIN"), "RUNNING"));
    assert_eq!(strip_prefix(&chars("git version 2"), "git version "), Some(&['2'][..]));
    assert_eq!(strip_prefix(&chars("git"), "git version "), None);
    assert_eq!(lowered(&chars("AbZ\u{c4}")), chars("abz\u{c4}"));
}

#[test]
fn numbers_are_read_as_they_are_written() {
    for n in [0, 7, 10, u64::MAX] {
        let text = to_decimal(n);
        assert_eq!(text.iter().collect::<String>(), n.to_string());
        assert_eq!(parse_unsigned(&text, 10, u64::MAX), Some(n));
        assert!(is_decimal_of(&text, n));
    }
    assert_eq!(parse_unsigned(&chars("ff"), 16, 255), Some(255));
    assert_eq!(parse_unsigned(&chars("100"), 16, 255), None);
    assert_eq!(parse_unsigned(&chars(""), 10, 9), None);
    assert_eq!(parse_unsigned(&chars("1x"), 10, 99), None);
    assert!(!is_decimal_of(&chars("07"), 7));
    assert_eq!(numbered("c-", 12), "c-12");
}

#[test]
fn characters_are_classified() {
    assert!(control('\u{7f}') && control('\u{85}') && !control(' '));
    assert!(white_space('\u{3000}') && !white_space('a'));
    assert!(ascii_space('\t') && !ascii_space('\u{a0}'));
    assert!(alphanumeric('Z') && alphanumeric('0') && !alphanumeric('_'));
    assert!(contains_control(&chars("a\u{1}")));
    assert!(is_all_graphic(&chars("a!~")) && !is_all_graphic(&chars("a b")));
    assert!(is_all_in_word_set(&chars("a-1"), "-") && !is_all_in_word_set(&chars("a.1"), "-"));
    assert!(holds_char(&chars("abc"), 'b') && !holds_char(&chars("abc"), 'd'));
    assert!(spells(&chars("abc"), "abc") && !spells(&chars("abc"), "ab"));
}

#[test]
fn texts_and_bytes_are_told_apart() {
    assert_eq!(len_in_bytes("ä€"), 5);
    assert_eq!(decode_chars("ä€".as_bytes()), Some(vec!['ä', '€']));
    assert_eq!(decode_chars(&[0xc3]), None);
    assert_eq!(chars_of("aä"), vec!['a', 'ä']);
    assert_eq!(string_of(&['a', 'ä']), "aä");
    assert!(same_text("aä", "aä") && !same_text("a", "ä"));
    assert!(same_bytes(b"ab", b"ab") && !same_bytes(b"ab", b"abc"));
    assert!(same_chars(&['a'], &['a']) && !same_chars(&['a'], &[]));
}

#[test]
fn numbers_are_written_in_little_endian_and_hexadecimal() {
    assert_eq!(to_hex(&[0x00, 0xaf, 0x10]), "00af10");
    let mut bytes = vec![9];
    push_little_endian(&mut bytes, 0x0102_0304, 4);
    assert_eq!(bytes, [9, 4, 3, 2, 1]);
}

#[test]
fn the_first_failed_check_counts() {
    let failure = |code| PlatformError::Native {
        kind: ErrorKind::Other,
        code: Some(code),
    };
    assert_eq!(require_all(&[]), Ok(()));
    assert_eq!(
        require_all(&[Ok(()), Err(failure(1)), Err(failure(2))]),
        Err(failure(1))
    );
}
