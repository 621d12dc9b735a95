//! OpenSSH public keys as they stand in an authorized-keys file.

use crate::scan;
use crate::scan::field_bounds;
use crate::text;
use crate::text::{chars_of, len_in_bytes, same_bytes, same_text};
use base64::Engine;
use vstd::prelude::*;
use vstd::slice::slice_subrange;
use vstd::utf8::encode_utf8;

verus! {

/// The longest encoded key that is accepted, in bytes.
pub const MAX_ENCODED_KEY_BYTES: usize = 16384;

/// What `base64::engine::general_purpose::STANDARD` decodes a text to: the
/// standard alphabet with canonical padding, or nothing.
pub uninterp spec fn base64_standard(encoded: Seq<char>) -> Option<Seq<u8>>;

/// `Engine::decode` of `base64::engine::general_purpose::STANDARD`: the result
/// depends on the text alone.
#[verifier::external_body]
fn decode_base64(encoded: &str) -> (decoded: Option<Vec<u8>>)
    ensures
        match decoded {
            Some(decoded) => base64_standard(encoded@) == Some(decoded@),
            None => base64_standard(encoded@) is None,
        },
{
    base64::engine::general_purpose::STANDARD.decode(encoded).ok()
}

/// A public key: its algorithm and its encoded blob.
#[derive(Clone, Copy, Debug, Eq, PartialEq)]
pub struct AuthorizedKey<'a> {
    pub key_type: &'a str,
    pub encoded: &'a str,
}

// ---------------------------------------------------------------------------
// The wire format
// ---------------------------------------------------------------------------

/// The number that four bytes stand for, most significant first.
pub open spec fn big_endian(bytes: Seq<u8>) -> nat
    recommends
        bytes.len() == 4,
{
    (bytes[0] as nat) * 0x1000000 + (bytes[1] as nat) * 0x10000 + (bytes[2] as nat) * 0x100 + (
    bytes[3] as nat)
}

/// The first length-prefixed string of `wire` and what follows it.
pub open spec fn wire_string(wire: Seq<u8>) -> Option<(Seq<u8>, Seq<u8>)> {
    if wire.len() < 4 {
        None
    } else {
        let length = big_endian(wire.take(4)) as int;
        if 4 + length > wire.len() {
            None
        } else {
            Some((wire.subrange(4, 4 + length), wire.skip(4 + length)))
        }
    }
}

/// The strings that `wire` is the concatenation of, where it is one.
pub open spec fn wire_strings(wire: Seq<u8>) -> Option<Seq<Seq<u8>>>
    decreases wire.len(),
{
    if wire.len() == 0 {
        Some(seq![])
    } else {
        match wire_string(wire) {
            None => None,
            Some((value, rest)) => if rest.len() < wire.len() {
                match wire_strings(rest) {
                    None => None,
                    Some(values) => Some(seq![value] + values),
                }
            } else {
                None
            },
        }
    }
}

/// Takes the first string off `wire`; leaves `wire` alone where there is none.
pub fn take_ssh_wire_string<'a>(wire: &mut &'a [u8]) -> (value: Option<&'a [u8]>)
    ensures
        match value {
            Some(value) => wire_string((*old(wire))@) == Some((value@, (*final(wire))@)),
            None => wire_string((*old(wire))@) is None && *final(wire) == *old(wire),
        },
{
    let all: &'a [u8] = *wire;
    if all.len() < 4 {
        return None;
    }
    let length: usize = (all[0] as usize) * 0x1000000 + (all[1] as usize) * 0x10000 + (
    all[2] as usize) * 0x100 + (all[3] as usize);
    let room: usize = all.len() - 4;
    if length > room {
        return None;
    }
    let value = slice_subrange(all, 4, 4 + length);
    *wire = slice_subrange(all, 4 + length, all.len());
    Some(value)
}

// ---------------------------------------------------------------------------
// Key types
// ---------------------------------------------------------------------------

/// The algorithms that are accepted.
pub open spec fn supported(key_type: Seq<char>) -> bool {
    ||| key_type == "ssh-ed25519"@
    ||| key_type == "ssh-rsa"@
    ||| curve(key_type) is Some
    ||| key_type == "sk-ssh-ed25519@openssh.com"@
}

/// The curve of an ECDSA algorithm.
pub open spec fn curve(key_type: Seq<char>) -> Option<Seq<char>> {
    if key_type == "ecdsa-sha2-nistp256"@ {
        Some("nistp256"@)
    } else if key_type == "ecdsa-sha2-nistp384"@ {
        Some("nistp384"@)
    } else if key_type == "ecdsa-sha2-nistp521"@ {
        Some("nistp521"@)
    } else {
        None
    }
}

/// Whether `parts` are the strings of a key of `key_type`: the name of the
/// algorithm and then what the algorithm defines, of the size it must have.
pub open spec fn key_parts(key_type: Seq<char>, parts: Seq<Seq<u8>>) -> bool {
    &&& parts.len() > 0
    &&& parts[0] == encode_utf8(key_type)
    &&& if key_type == "ssh-ed25519"@ {
        parts.len() == 2 && parts[1].len() == 32
    } else if key_type == "ssh-rsa"@ {
        parts.len() == 3 && parts[1].len() > 0 && parts[2].len() > 0
    } else if key_type == "sk-ssh-ed25519@openssh.com"@ {
        parts.len() == 3 && parts[1].len() == 32 && parts[2].len() > 0
    } else {
        match curve(key_type) {
            Some(name) => parts.len() == 3 && parts[1] == encode_utf8(name) && parts[2].len() > 0,
            None => false,
        }
    }
}

/// Whether `blob` is a complete key of `key_type`.
pub open spec fn key_blob(key_type: Seq<char>, blob: Seq<u8>) -> bool {
    match wire_strings(blob) {
        Some(parts) => key_parts(key_type, parts),
        None => false,
    }
}

/// The algorithm and the encoded blob of the key on `line`, where the line
/// begins with a valid one. What follows the blob is a comment.
pub open spec fn authorized_key(line: Seq<char>) -> Option<(Seq<char>, Seq<char>)> {
    let fields = scan::fields(line);
    if fields.len() >= 2 && supported(fields[0]) && text::byte_len(fields[1])
        <= MAX_ENCODED_KEY_BYTES {
        match base64_standard(fields[1]) {
            Some(blob) => if key_blob(fields[0], blob) {
                Some((fields[0], fields[1]))
            } else {
                None
            },
            None => None,
        }
    } else {
        None
    }
}

fn curve_name(key_type: &str) -> (name: Option<&'static str>)
    ensures
        match name {
            Some(name) => curve(key_type@) == Some(name@),
            None => curve(key_type@) is None,
        },
{
    if same_text(key_type, "ecdsa-sha2-nistp256") {
        Some("nistp256")
    } else if same_text(key_type, "ecdsa-sha2-nistp384") {
        Some("nistp384")
    } else if same_text(key_type, "ecdsa-sha2-nistp521") {
        Some("nistp521")
    } else {
        None
    }
}

/// Taking one string off a wire takes the first of its strings.
proof fn lemma_strings(wire: Seq<u8>)
    ensures
        wire_strings(wire) matches Some(parts) ==> (parts.len() == 0 <==> wire.len() == 0),
        wire.len() > 0 ==> match wire_string(wire) {
            None => wire_strings(wire) is None,
            Some((value, rest)) => match wire_strings(rest) {
                None => wire_strings(wire) is None,
                Some(values) => wire_strings(wire) == Some(seq![value] + values),
            },
        },
{
}

/// Whether `blob` is a complete key of `key_type`.
pub fn key_blob_is_valid(key_type: &str, blob: &[u8]) -> (valid: bool)
    ensures
        valid == (supported(key_type@) && key_blob(key_type@, blob@)),
{
    let mut wire: &[u8] = blob;
    proof {
        lemma_strings(wire@);
    }
    let name = match take_ssh_wire_string(&mut wire) {
        Some(name) => name,
        None => {
            return false;
        },
    };
    if !same_bytes(name, key_type.as_bytes()) {
        return false;
    }
    proof {
        lemma_strings(wire@);
    }
    let first = match take_ssh_wire_string(&mut wire) {
        Some(first) => first,
        None => {
            return false;
        },
    };
    proof {
        lemma_strings(wire@);
    }
    if same_text(key_type, "ssh-ed25519") {
        return first.len() == 32 && wire.len() == 0;
    }
    let second = match take_ssh_wire_string(&mut wire) {
        Some(second) => second,
        None => {
            return false;
        },
    };
    proof {
        lemma_strings(wire@);
    }
    if wire.len() != 0 || second.len() == 0 {
        return false;
    }
    if same_text(key_type, "ssh-rsa") {
        first.len() != 0
    } else if same_text(key_type, "sk-ssh-ed25519@openssh.com") {
        first.len() == 32
    } else {
        match curve_name(key_type) {
            Some(name) => same_bytes(first, name.as_bytes()),
            None => false,
        }
    }
}

/// The key that `line` begins with.
pub fn parse_authorized_key_line(line: &str) -> (key: Option<AuthorizedKey<'_>>)
    ensures
        match key {
            Some(key) => authorized_key(line@) == Some((key.key_type@, key.encoded@)),
            None => authorized_key(line@) is None,
        },
{
    let chars = chars_of(line);
    let bounds = field_bounds(&chars);
    if bounds.len() < 2 {
        return None;
    }
    let key_type = line.substring_char(bounds[0].0, bounds[0].1);
    let encoded = line.substring_char(bounds[1].0, bounds[1].1);
    if len_in_bytes(encoded) > MAX_ENCODED_KEY_BYTES {
        return None;
    }
    let blob = match decode_base64(encoded) {
        Some(blob) => blob,
        None => {
            return None;
        },
    };
    if key_blob_is_valid(key_type, &blob) {
        Some(AuthorizedKey { key_type, encoded })
    } else {
        None
    }
}

} // verus!
