//! Digests, and how numbers and bytes are written down for them.

use crate::machine_id;
use crate::text::string_of;
use vstd::prelude::*;

verus! {

/// The SHA-256 digest of bytes.
pub uninterp spec fn sha256_of(bytes: Seq<u8>) -> Seq<u8>;

/// Calls `sha2::Sha256::digest`. What it computes is named `sha256_of`; it is
/// always 32 bytes long.
#[verifier::external_body]
fn sha256(bytes: &[u8]) -> (digest: Vec<u8>)
    ensures
        digest@ == sha256_of(bytes@),
        digest@.len() == 32,
{
    <sha2::Sha256 as sha2::Digest>::digest(bytes).to_vec()
}

/// Each byte as two hexadecimal digits, in lower case.
pub open spec fn hex_of(bytes: Seq<u8>) -> Seq<char>
    decreases bytes.len(),
{
    if bytes.len() == 0 {
        seq![]
    } else {
        hex_of(bytes.drop_last()) + machine_id::hex(bytes.last() as nat, 2)
    }
}

fn hex_digit(value: u8) -> (digit: char)
    requires
        value < 16,
    ensures
        digit == machine_id::hex_char(value as nat),
{
    if value < 10 {
        (48u8 + value) as char
    } else {
        (97u8 + (value - 10)) as char
    }
}

/// Writes each byte as two hexadecimal digits.
pub fn to_hex(bytes: &[u8]) -> (text: String)
    ensures
        text@ == hex_of(bytes@),
{
    let mut chars: Vec<char> = Vec::new();
    for i in 0..bytes.len()
        invariant
            chars@ == hex_of(bytes@.take(i as int)),
    {
        let byte: u8 = bytes[i];
        let ghost before = chars@;
        chars.push(hex_digit(byte / 16));
        chars.push(hex_digit(byte % 16));
        proof {
            assert(bytes@.take(i + 1).drop_last() =~= bytes@.take(i as int));
            reveal_with_fuel(machine_id::hex, 3);
            assert((byte as nat / 16) % 16 == byte as nat / 16);
            assert(chars@ =~= before + machine_id::hex(byte as nat, 2));
        }
    }
    assert(bytes@.take(bytes@.len() as int) =~= bytes@);
    string_of(&chars)
}

/// The SHA-256 digest of bytes, as text.
pub fn sha256_text(bytes: &[u8]) -> (text: String)
    ensures
        text@ == hex_of(sha256_of(bytes@)),
{
    let digest = sha256(bytes);
    to_hex(&digest)
}

/// The last `count` bytes of a number, the least significant first.
pub open spec fn little_endian(n: nat, count: nat) -> Seq<u8>
    decreases count,
{
    if count == 0 {
        seq![]
    } else {
        seq![(n % 256) as u8] + little_endian(n / 256, (count - 1) as nat)
    }
}

/// Appends the last `count` bytes of a number, the least significant first.
pub fn push_little_endian(bytes: &mut Vec<u8>, n: u64, count: usize)
    ensures
        final(bytes)@ == old(bytes)@ + little_endian(n as nat, count as nat),
{
    let ghost before = bytes@;
    let mut rest: u64 = n;
    for i in 0..count
        invariant
            bytes@ + little_endian(rest as nat, (count - i) as nat) == before + little_endian(
                n as nat,
                count as nat,
            ),
    {
        let ghost held = bytes@;
        bytes.push((rest % 256) as u8);
        assert(bytes@ + little_endian((rest / 256) as nat, (count - i - 1) as nat) =~= held
            + little_endian(rest as nat, (count - i) as nat));
        rest = rest / 256;
    }
    assert(bytes@ + little_endian(rest as nat, 0) =~= bytes@);
}

/// The number of values of `count` bytes.
pub open spec fn byte_range(count: nat) -> nat
    decreases count,
{
    if count == 0 {
        1
    } else {
        256 * byte_range((count - 1) as nat)
    }
}

/// As many bytes are written as were asked for.
pub proof fn lemma_little_endian_len(n: nat, count: nat)
    ensures
        little_endian(n, count).len() == count,
    decreases count,
{
    if count > 0 {
        lemma_little_endian_len(n / 256, (count - 1) as nat);
    }
}

/// Numbers that fit are told apart by their bytes.
pub proof fn little_endian_is_injective(a: nat, b: nat, count: nat)
    requires
        a < byte_range(count),
        b < byte_range(count),
        little_endian(a, count) == little_endian(b, count),
    ensures
        a == b,
    decreases count,
{
    if count > 0 {
        let rest = (count - 1) as nat;
        let left = little_endian(a, count);
        let right = little_endian(b, count);
        assert(left[0] == (a % 256) as u8);
        assert(right[0] == (b % 256) as u8);
        lemma_little_endian_len(a / 256, rest);
        lemma_little_endian_len(b / 256, rest);
        assert(left.skip(1) =~= little_endian(a / 256, rest));
        assert(right.skip(1) =~= little_endian(b / 256, rest));
        assert(a / 256 < byte_range(rest)) by (nonlinear_arith)
            requires
                a < 256 * byte_range(rest),
        ;
        assert(b / 256 < byte_range(rest)) by (nonlinear_arith)
            requires
                b < 256 * byte_range(rest),
        ;
        little_endian_is_injective(a / 256, b / 256, rest);
    }
}

} // verus!
