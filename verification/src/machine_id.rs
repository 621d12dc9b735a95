//! Machine identifiers: UUIDs of version seven, written in one canonical way.

use crate::text::same_text;
use vstd::prelude::*;

verus! {

/// The lower-case hexadecimal digit worth `d`.
pub open spec fn hex_char(d: nat) -> char {
    if d < 10 {
        ('0' as u32 + d) as char
    } else {
        ('a' as u32 + (d - 10)) as char
    }
}

/// The last `count` hexadecimal digits of `n`, the most significant first.
pub open spec fn hex(n: nat, count: nat) -> Seq<char>
    decreases count,
{
    if count == 0 {
        seq![]
    } else {
        hex(n / 16, (count - 1) as nat).push(hex_char(n % 16))
    }
}

/// The canonical text of a UUID: its 32 digits in groups of eight, four, four,
/// four and twelve, with hyphens between them.
pub open spec fn canonical_text(id: u128) -> Seq<char> {
    let digits = hex(id as nat, 32);
    digits.subrange(0, 8) + seq!['-'] + digits.subrange(8, 12) + seq!['-'] + digits.subrange(12, 16)
        + seq!['-'] + digits.subrange(16, 20) + seq!['-'] + digits.subrange(20, 32)
}

/// The version that a UUID states.
pub open spec fn version(id: u128) -> u128 {
    (id >> 76) & 0xf
}

/// Whether a UUID states the variant that RFC 4122 defines.
pub open spec fn rfc_variant(id: u128) -> bool {
    (id >> 62) & 3 == 2
}

/// Whether a UUID can name a machine.
pub open spec fn names_machine(id: u128) -> bool {
    version(id) == 7 && rfc_variant(id)
}

/// The UUID that `uuid::Uuid::parse_str` reads from a text, as the number of
/// its big-endian bytes.
pub uninterp spec fn parsed_uuid(text: Seq<char>) -> Option<u128>;

/// `uuid::Uuid::parse_str`: besides the canonical text of a UUID, from which it
/// reads that UUID, it accepts upper-case digits, text without hyphens and text
/// in braces or behind `urn:uuid:`. What it reads from those is left unsaid.
#[verifier::external_body]
fn parse_uuid(text: &str) -> (id: Option<u128>)
    ensures
        id == parsed_uuid(text@),
        forall|known: u128| text@ == #[trigger] canonical_text(known) ==> id == Some(known),
{
    uuid::Uuid::parse_str(text).ok().map(|id| id.as_u128())
}

/// `ToString` on `uuid::Uuid`: the canonical text.
#[verifier::external_body]
fn uuid_text(id: u128) -> (text: String)
    ensures
        text@ == canonical_text(id),
{
    uuid::Uuid::from_u128(id).to_string()
}

/// `uuid::Uuid::get_version_num`: the high half of the seventh byte.
#[verifier::external_body]
fn version_number(id: u128) -> (number: usize)
    ensures
        number == version(id),
{
    uuid::Uuid::from_u128(id).get_version_num()
}

/// `uuid::Uuid::get_variant`: the variant is RFC 4122 exactly where the two high
/// bits of the ninth byte are one and zero.
#[verifier::external_body]
fn has_rfc_variant(id: u128) -> (holds: bool)
    ensures
        holds == rfc_variant(id),
{
    uuid::Uuid::from_u128(id).get_variant() == uuid::Variant::RFC4122
}

/// The machine that `text` names: the text is the canonical one of a UUID that
/// can name a machine.
pub open spec fn named_machine(text: Seq<char>) -> Option<u128> {
    if exists|id: u128| #[trigger] canonical_text(id) == text && names_machine(id) {
        Some(choose|id: u128| #[trigger] canonical_text(id) == text && names_machine(id))
    } else {
        None
    }
}

/// Reads the identifier of a machine.
pub fn parse_machine_id(text: &str) -> (id: Option<u128>)
    ensures
        id == named_machine(text@),
{
    let id: u128 = match parse_uuid(text) {
        Some(id) => id,
        None => {
            return None;
        },
    };
    proof {
        assert forall|other: u128| #[trigger] canonical_text(other) == text@ implies other == id by {
            assert(Some(other) == Some(id));
        }
    }
    if !same_text(uuid_text(id).as_str(), text) {
        return None;
    }
    if !is_machine_id(id) {
        return None;
    }
    assert(canonical_text(id) == text@ && names_machine(id));
    Some(id)
}

/// Whether a UUID can name a machine.
pub fn is_machine_id(id: u128) -> (holds: bool)
    ensures
        holds == names_machine(id),
{
    version_number(id) == 7 && has_rfc_variant(id)
}

/// Whether a UUID states version seven.
pub fn is_version_seven(id: u128) -> (holds: bool)
    ensures
        holds == (version(id) == 7),
{
    version_number(id) == 7
}

/// The canonical text of a machine's identifier.
pub fn machine_id_text(id: u128) -> (text: String)
    ensures
        text@ == canonical_text(id),
{
    uuid_text(id)
}

proof fn lemma_hex_len(n: nat, count: nat)
    ensures
        hex(n, count).len() == count,
    decreases count,
{
    if count > 0 {
        lemma_hex_len(n / 16, (count - 1) as nat);
    }
}

/// Sixteen to the power of `count`.
spec fn span(count: nat) -> nat
    decreases count,
{
    if count == 0 {
        1
    } else {
        16 * span((count - 1) as nat)
    }
}

proof fn lemma_hex_injective(a: nat, b: nat, count: nat)
    requires
        a < span(count),
        b < span(count),
        hex(a, count) == hex(b, count),
    ensures
        a == b,
    decreases count,
{
    if count > 0 {
        let less = (count - 1) as nat;
        assert(hex(a, count).drop_last() == hex(a / 16, less));
        assert(hex(b, count).drop_last() == hex(b / 16, less));
        assert(hex(a, count).last() == hex_char(a % 16));
        assert(hex(b, count).last() == hex_char(b % 16));
        lemma_hex_injective(a / 16, b / 16, less);
    }
}

/// Two machines never have the same text.
pub proof fn canonical_text_is_injective(a: u128, b: u128)
    requires
        canonical_text(a) == canonical_text(b),
    ensures
        a == b,
{
    lemma_hex_len(a as nat, 32);
    lemma_hex_len(b as nat, 32);
    let left = hex(a as nat, 32);
    let right = hex(b as nat, 32);
    let text = canonical_text(a);
    assert(left =~= right) by {
        assert forall|i: int| 0 <= i < 32 implies left[i] == right[i] by {
            let at = if i < 8 {
                i
            } else if i < 12 {
                i + 1
            } else if i < 16 {
                i + 2
            } else if i < 20 {
                i + 3
            } else {
                i + 4
            };
            assert(canonical_text(a)[at] == left[i]);
            assert(canonical_text(b)[at] == right[i]);
        }
    }
    assert(span(32) == 0x1_0000_0000_0000_0000_0000_0000_0000_0000nat) by {
        reveal_with_fuel(span, 33);
    }
    lemma_hex_injective(a as nat, b as nat, 32);
}

/// Writing a machine's identifier and reading it back gives the identifier.
pub proof fn machine_id_round_trip(id: u128)
    requires
        names_machine(id),
    ensures
        named_machine(canonical_text(id)) == Some(id),
{
    let text = canonical_text(id);
    assert(canonical_text(id) == text && names_machine(id));
    let read = choose|other: u128| #[trigger] canonical_text(other) == text && names_machine(other);
    canonical_text_is_injective(id, read);
}

} // verus!
