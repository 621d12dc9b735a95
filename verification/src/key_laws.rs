//! What a public key is, and when a user's keys let a controller in, in terms of
//! the bytes of the key and of what was found of the files.

use crate::access_laws::{is_exact_list, lemma_stored_object, told};
use crate::acl::AclKind;
use crate::authorized_keys;
use crate::authorized_keys::{
    authorized_keys_are_ready, authorized_keys_file_is_ready, canonical_authorized_keys_path,
    keys_are_sufficient, KeyDirectoryFacts, KeyFileFacts,
};
use crate::descriptor;
use crate::descriptor::SecurityFacts;
use crate::layout;
use crate::layout::{PathModel, WorkerPath};
use crate::rpc::{ErrorCode, RpcError};
use crate::rpc_payload::canonical_authorized_public_key;
use crate::scan;
use crate::ssh_key;
use crate::ssh_key::{key_blob_is_valid, parse_authorized_key_line, AuthorizedKey};
use crate::text;
use vstd::prelude::*;
use vstd::utf8::{decode_utf8, encode_utf8, valid_utf8};

verus! {

// ---------------------------------------------------------------------------
// Keys
// ---------------------------------------------------------------------------

/// How a string is written in a key: its length in four bytes, the largest first,
/// and the string.
pub open spec fn written(part: Seq<u8>) -> Seq<u8> {
    seq![
        (part.len() / 0x1000000) as u8,
        (part.len() / 0x10000 % 0x100) as u8,
        (part.len() / 0x100 % 0x100) as u8,
        (part.len() % 0x100) as u8,
    ] + part
}

/// Strings written one behind the other.
pub open spec fn all_written(parts: Seq<Seq<u8>>) -> Seq<u8>
    decreases parts.len(),
{
    if parts.len() == 0 {
        seq![]
    } else {
        written(parts[0]) + all_written(parts.drop_first())
    }
}

/// Whether every string can be written.
pub open spec fn writable(parts: Seq<Seq<u8>>) -> bool {
    forall|i: int| 0 <= i < parts.len() ==> (#[trigger] parts[i]).len() < 0x1_0000_0000
}

proof fn lemma_read_back(part: Seq<u8>, rest: Seq<u8>)
    requires
        part.len() < 0x1_0000_0000,
    ensures
        ssh_key::wire_string(written(part) + rest) == Some((part, rest)),
{
    let wire = written(part) + rest;
    let n = part.len() as int;
    assert(n / 0x1000000 < 0x100);
    assert(wire.take(4)[0] == wire[0] && wire.take(4)[1] == wire[1]);
    assert(wire.take(4)[2] == wire[2] && wire.take(4)[3] == wire[3]);
    assert(ssh_key::big_endian(wire.take(4)) == n);
    assert(wire.subrange(4, 4 + n) =~= part);
    assert(wire.skip(4 + n) =~= rest);
}

proof fn lemma_four_bytes(a: int, b: int, c: int, d: int, n: int)
    requires
        0 <= a < 0x100 && 0 <= b < 0x100 && 0 <= c < 0x100 && 0 <= d < 0x100,
        n == a * 0x1000000 + b * 0x10000 + c * 0x100 + d,
    ensures
        n / 0x1000000 == a,
        n / 0x10000 % 0x100 == b,
        n / 0x100 % 0x100 == c,
        n % 0x100 == d,
        n < 0x1_0000_0000,
{
    assert(n / 0x100 == a * 0x10000 + b * 0x100 + c);
    assert(n / 0x10000 == a * 0x100 + b);
}

proof fn lemma_written(wire: Seq<u8>)
    ensures
        ssh_key::wire_string(wire) matches Some((part, rest)) ==> part.len() < 0x1_0000_0000 && wire
            == written(part) + rest,
{
    if let Some((part, rest)) = ssh_key::wire_string(wire) {
        let n = part.len() as int;
        let head = wire.take(4);
        assert(n == ssh_key::big_endian(head));
        assert(head[0] == wire[0] && head[1] == wire[1] && head[2] == wire[2] && head[3] == wire[3]);
        lemma_four_bytes(wire[0] as int, wire[1] as int, wire[2] as int, wire[3] as int, n);
        let all = written(part) + rest;
        assert(all.len() == wire.len());
        assert forall|i: int| 0 <= i < wire.len() implies all[i] == wire[i] by {
            if i >= 4 + n {
                assert(all[i] == rest[i - 4 - n]);
            } else if i >= 4 {
                assert(all[i] == part[i - 4]);
            }
        }
        assert(wire =~= all);
    }
}

proof fn lemma_all_written(parts: Seq<Seq<u8>>)
    requires
        writable(parts),
    ensures
        ssh_key::wire_strings(all_written(parts)) == Some(parts),
    decreases parts.len(),
{
    if parts.len() > 0 {
        let rest = parts.drop_first();
        assert forall|i: int| 0 <= i < rest.len() implies (#[trigger] rest[i]).len()
            < 0x1_0000_0000 by {
            assert(rest[i] == parts[i + 1]);
        }
        lemma_all_written(rest);
        lemma_read_back(parts[0], all_written(rest));
        assert(seq![parts[0]] + rest =~= parts);
    }
}

proof fn lemma_wire_strings(wire: Seq<u8>)
    ensures
        ssh_key::wire_strings(wire) matches Some(parts) ==> writable(parts) && wire == all_written(
            parts,
        ),
    decreases wire.len(),
{
    if wire.len() > 0 && ssh_key::wire_strings(wire) is Some {
        lemma_written(wire);
        let (part, rest) = ssh_key::wire_string(wire)->0;
        lemma_wire_strings(rest);
        let parts = ssh_key::wire_strings(wire)->0;
        let tail = ssh_key::wire_strings(rest)->0;
        assert(parts == seq![part] + tail);
        assert(parts.drop_first() =~= tail);
        assert forall|i: int| 0 <= i < parts.len() implies (#[trigger] parts[i]).len()
            < 0x1_0000_0000 by {
            if i > 0 {
                assert(parts[i] == tail[i - 1]);
            }
        }
    }
}

/// The strings that keys of an algorithm are made of: its name; for Ed25519 a point
/// of thirty-two bytes, with the name of an application behind it for a security
/// key; for RSA two numbers; for ECDSA the name of the curve and a point.
pub open spec fn shaped(key_type: Seq<char>, parts: Seq<Seq<u8>>) -> bool {
    &&& parts.len() > 0 && parts[0] == encode_utf8(key_type)
    &&& {
        ||| key_type == "ssh-ed25519"@ && parts.len() == 2 && parts[1].len() == 32
        ||| key_type == "ssh-rsa"@ && parts.len() == 3 && parts[1].len() > 0 && parts[2].len() > 0
        ||| key_type == "sk-ssh-ed25519@openssh.com"@ && parts.len() == 3 && parts[1].len() == 32
            && parts[2].len() > 0
        ||| key_type == "ecdsa-sha2-nistp256"@ && parts.len() == 3 && parts[1] == encode_utf8(
            "nistp256"@,
        ) && parts[2].len() > 0
        ||| key_type == "ecdsa-sha2-nistp384"@ && parts.len() == 3 && parts[1] == encode_utf8(
            "nistp384"@,
        ) && parts[2].len() > 0
        ||| key_type == "ecdsa-sha2-nistp521"@ && parts.len() == 3 && parts[1] == encode_utf8(
            "nistp521"@,
        ) && parts[2].len() > 0
    }
}

/// Whether bytes are a whole key of an algorithm, and nothing more.
pub open spec fn is_blob(key_type: Seq<char>, blob: Seq<u8>) -> bool {
    exists|parts: Seq<Seq<u8>>|
        writable(parts) && blob == #[trigger] all_written(parts) && shaped(key_type, parts)
}

proof fn lemma_types()
    ensures
        "ssh-ed25519"@.len() == 11,
        "ssh-rsa"@.len() == 7,
        "sk-ssh-ed25519@openssh.com"@.len() == 26,
        "ecdsa-sha2-nistp256"@.len() == 19,
        "ecdsa-sha2-nistp384"@.len() == 19,
        "ecdsa-sha2-nistp521"@.len() == 19,
        "ecdsa-sha2-nistp256"@[16] == '2',
        "ecdsa-sha2-nistp384"@[16] == '3',
        "ecdsa-sha2-nistp521"@[16] == '5',
{
    reveal_strlit("ssh-ed25519");
    reveal_strlit("ssh-rsa");
    reveal_strlit("sk-ssh-ed25519@openssh.com");
    reveal_strlit("ecdsa-sha2-nistp256");
    reveal_strlit("ecdsa-sha2-nistp384");
    reveal_strlit("ecdsa-sha2-nistp521");
}

proof fn lemma_blob(key_type: Seq<char>, blob: Seq<u8>)
    ensures
        (ssh_key::supported(key_type) && ssh_key::key_blob(key_type, blob)) == is_blob(
            key_type,
            blob,
        ),
{
    lemma_types();
    lemma_wire_strings(blob);
    if ssh_key::supported(key_type) && ssh_key::key_blob(key_type, blob) {
        let parts = ssh_key::wire_strings(blob)->0;
        assert(blob == all_written(parts) && shaped(key_type, parts));
    }
    if is_blob(key_type, blob) {
        let parts = choose|parts: Seq<Seq<u8>>|
            writable(parts) && blob == #[trigger] all_written(parts) && shaped(key_type, parts);
        lemma_all_written(parts);
    }
}

/// A blob is a key exactly where it is the strings that its algorithm is made of,
/// written one behind the other.
pub proof fn keys_are_their_strings(key_type: &str, blob: &[u8], valid: bool)
    requires
        call_ensures(key_blob_is_valid, (key_type, blob), valid),
    ensures
        valid <==> is_blob(key_type@, blob@),
{
    lemma_blob(key_type@, blob@);
}

/// Whether a line begins with a key: an algorithm and, in base 64 of at most 16 KiB,
/// the key. What follows does not matter.
pub open spec fn begins_with_key(line: Seq<char>, key_type: Seq<char>, encoded: Seq<char>) -> bool {
    &&& scan::fields(line).len() >= 2
    &&& key_type == scan::fields(line)[0]
    &&& encoded == scan::fields(line)[1]
    &&& encode_utf8(encoded).len() <= 16384
    &&& ssh_key::base64_standard(encoded) matches Some(blob) && is_blob(key_type, blob)
}

proof fn lemma_key(line: Seq<char>)
    ensures
        ssh_key::authorized_key(line) matches Some(key) ==> begins_with_key(line, key.0, key.1),
        forall|key_type: Seq<char>, encoded: Seq<char>| #[trigger]
            begins_with_key(line, key_type, encoded) ==> ssh_key::authorized_key(line) == Some(
                (key_type, encoded),
            ),
{
    let fields = scan::fields(line);
    if fields.len() >= 2 {
        if let Some(blob) = ssh_key::base64_standard(fields[1]) {
            lemma_blob(fields[0], blob);
        }
    }
}

/// A key is read from a line exactly where the line begins with it.
pub proof fn keys_stand_at_the_beginning(line: &str, key: Option<AuthorizedKey<'_>>)
    requires
        call_ensures(parse_authorized_key_line, (line,), key),
    ensures
        key matches Some(key) ==> begins_with_key(line@, key.key_type@, key.encoded@),
        key is None ==> forall|key_type: Seq<char>, encoded: Seq<char>|
            !(#[trigger] begins_with_key(line@, key_type, encoded)),
{
    lemma_key(line@);
}

/// A controller's key loses what follows it on its line, and is refused where there
/// is none or where the line is over 16 KiB.
pub proof fn controller_keys_lose_their_comments(value: &str, result: Result<String, RpcError>)
    requires
        call_ensures(canonical_authorized_public_key, (value,), result),
    ensures
        result is Ok <==> encode_utf8(value@).len() <= 16384 && exists|
            key_type: Seq<char>,
            encoded: Seq<char>,
        | #[trigger]
            begins_with_key(value@, key_type, encoded),
        result matches Ok(key) ==> key@ == scan::fields(value@)[0] + seq![' '] + scan::fields(
            value@,
        )[1],
        result matches Err(error) ==> error.code == ErrorCode::UsageInvalidArgument,
{
    reveal_strlit(" ");
    lemma_key(value@);
    if result is Ok {
        let key = ssh_key::authorized_key(value@)->0;
        assert(begins_with_key(value@, key.0, key.1));
        assert(" "@ =~= seq![' ']);
    }
}

// ---------------------------------------------------------------------------
// Files of keys
// ---------------------------------------------------------------------------

/// A path with each backslash turned.
pub open spec fn turned(path: Seq<char>) -> Seq<char> {
    Seq::new(
        path.len(),
        |i: int|
            if path[i] == '\\' {
                '/'
            } else {
                path[i]
            },
    )
}

/// Whether a configured path is one of the user's own files of keys, written from
/// the user's profile: by itself, behind `%h/` or behind `./`.
pub open spec fn is_own(configured: Seq<char>, name: Seq<char>) -> bool {
    let path = turned(configured);
    ||| path == name
    ||| path == "%h/"@ + name
    ||| path == "./"@ + name
}

proof fn lemma_own(configured: Seq<char>, name: Seq<char>)
    requires
        name == ".ssh/authorized_keys"@ || name == ".ssh/authorized_keys2"@,
    ensures
        (authorized_keys::relative_to_profile(configured) == name) == is_own(configured, name),
{
    reveal_strlit("%h/");
    reveal_strlit("./");
    reveal_strlit(".ssh/authorized_keys");
    reveal_strlit(".ssh/authorized_keys2");
    let path = authorized_keys::forward(configured);
    assert(path =~= turned(configured));
    let home = "%h/"@;
    let here = "./"@;
    assert(home.len() == 3 && home[0] == '%');
    assert(here.len() == 2 && here[0] == '.' && here[1] == '/');
    assert(name[0] == '.' && name[1] == 's');
    if scan::begins_with(path, home) {
        assert(path =~= home + path.skip(3));
        assert(path[0] == path.take(3)[0]);
        if path == home + name {
            assert(path.skip(3) =~= name);
        }
        if path == here + name {
            assert(path[0] == '.');
        }
    } else if scan::begins_with(path, here) {
        assert(path =~= here + path.skip(2));
        assert(path[1] == path.take(2)[1]);
        if path == here + name {
            assert(path.skip(2) =~= name);
        }
        if path == home + name {
            assert(path.take(3) =~= home);
        }
    } else {
        if path == home + name {
            assert(path.take(3) =~= home);
        }
        if path == here + name {
            assert(path.take(2) =~= here);
        }
    }
}

/// Where a name lies in a directory.
pub open spec fn within(path: PathModel, name: Seq<char>) -> PathModel {
    PathModel {
        prefix: path.prefix,
        components: path.components.push(Seq::new(name.len(), |i: int| name[i] as u16)),
    }
}

/// A configured file of keys counts exactly where it is one of the two of the user,
/// and is found in `.ssh` below the user's profile.
pub proof fn own_files_of_keys_count(
    profile: &WorkerPath,
    configured: &str,
    path: Option<WorkerPath>,
)
    requires
        call_ensures(canonical_authorized_keys_path, (profile, configured), path),
    ensures
        path is Some <==> is_own(configured@, ".ssh/authorized_keys"@) || is_own(
            configured@,
            ".ssh/authorized_keys2"@,
        ),
        path matches Some(path) ==> path@ == within(
            within(profile@, ".ssh"@),
            if is_own(configured@, ".ssh/authorized_keys"@) {
                "authorized_keys"@
            } else {
                "authorized_keys2"@
            },
        ),
{
    lemma_own(configured@, ".ssh/authorized_keys"@);
    lemma_own(configured@, ".ssh/authorized_keys2"@);
    lemma_units(".ssh"@);
    lemma_units("authorized_keys"@);
    lemma_units("authorized_keys2"@);
}

proof fn lemma_units(name: Seq<char>)
    ensures
        layout::ascii_units(name) == Seq::new(name.len(), |i: int| name[i] as u16),
{
    assert(layout::ascii_units(name) =~= Seq::new(name.len(), |i: int| name[i] as u16));
}

/// Whether a line of a file holds a key; the margins of the line do not matter.
pub open spec fn line_with(
    contents: Seq<char>,
    key_type: Seq<char>,
    encoded: Seq<char>,
    line: int,
) -> bool {
    0 <= line < scan::lines(contents).len() && begins_with_key(
        scan::trim(scan::lines(contents)[line]),
        key_type,
        encoded,
    )
}

/// Whether a wanted key is one and stands on some line.
pub open spec fn is_held(contents: Seq<char>, wanted: Seq<char>) -> bool {
    exists|key_type: Seq<char>, encoded: Seq<char>, line: int|
        begins_with_key(wanted, key_type, encoded) && #[trigger] line_with(
            contents,
            key_type,
            encoded,
            line,
        )
}

/// Whether a file has what is required: every required key, each of which is one,
/// stands on some line; where none is required, any key stands on some line.
pub open spec fn has_what_is_required(contents: Seq<char>, required: Seq<String>) -> bool {
    if required.len() == 0 {
        exists|key_type: Seq<char>, encoded: Seq<char>, line: int| #[trigger]
            line_with(contents, key_type, encoded, line)
    } else {
        forall|i: int| 0 <= i < required.len() ==> is_held(contents, (#[trigger] required[i])@)
    }
}

proof fn lemma_required(contents: Seq<char>, required: Seq<String>)
    ensures
        authorized_keys::keys_suffice(scan::lines(contents), text::string_views(required))
            == has_what_is_required(contents, required),
{
    let lines = scan::lines(contents);
    let views = text::string_views(required);
    assert forall|i: int| 0 <= i < lines.len() implies (#[trigger] authorized_keys::key_in(
        lines[i],
    )) == ssh_key::authorized_key(scan::trim(lines[i])) by {}
    if required.len() == 0 {
        if authorized_keys::keys_suffice(lines, views) {
            let i = choose|i: int|
                0 <= i < lines.len() && authorized_keys::key_in(#[trigger] lines[i]) is Some;
            lemma_key(scan::trim(lines[i]));
            let key = authorized_keys::key_in(lines[i])->0;
            assert(line_with(contents, key.0, key.1, i));
        }
        if has_what_is_required(contents, required) {
            let (key_type, encoded, line) = choose|
                key_type: Seq<char>,
                encoded: Seq<char>,
                line: int,
            | #[trigger]
                line_with(contents, key_type, encoded, line);
            lemma_key(scan::trim(lines[line]));
            assert(authorized_keys::key_in(lines[line]) is Some);
        }
    } else {
        if authorized_keys::keys_suffice(lines, views) {
            assert forall|i: int| 0 <= i < required.len() implies is_held(
                contents,
                (#[trigger] required[i])@,
            ) by {
                assert(views[i] == required[i]@);
                let key = ssh_key::authorized_key(views[i])->0;
                assert(authorized_keys::holds_key(lines, key));
                let line = choose|k: int|
                    0 <= k < lines.len() && authorized_keys::key_in(#[trigger] lines[k]) == Some(
                        key,
                    );
                lemma_key(required[i]@);
                lemma_key(scan::trim(lines[line]));
                assert(begins_with_key(required[i]@, key.0, key.1));
                assert(line_with(contents, key.0, key.1, line));
            }
        }
        if has_what_is_required(contents, required) {
            assert forall|i: int| 0 <= i < views.len() implies ({
                let key = ssh_key::authorized_key(#[trigger] views[i]);
                key is Some && authorized_keys::holds_key(lines, key->0)
            }) by {
                assert(views[i] == required[i]@);
                assert(is_held(contents, required[i]@));
                let (key_type, encoded, line) = choose|
                    key_type: Seq<char>,
                    encoded: Seq<char>,
                    line: int,
                |
                    begins_with_key(required[i]@, key_type, encoded) && #[trigger] line_with(
                        contents,
                        key_type,
                        encoded,
                        line,
                    );
                lemma_key(required[i]@);
                lemma_key(scan::trim(lines[line]));
                assert(authorized_keys::key_in(lines[line]) == Some((key_type, encoded)));
            }
        }
    }
}

/// A text suffices exactly where it has what is required.
pub proof fn texts_suffice_with_what_is_required(
    contents: &[char],
    required: &[String],
    sufficient: bool,
)
    requires
        call_ensures(keys_are_sufficient, (contents, required), sufficient),
    ensures
        sufficient <==> has_what_is_required(contents@, required@),
{
    lemma_required(contents@, required@);
}

/// Whether an object is the user's alone: the user owns it, its list inherits
/// nothing and grants everything to the system, the administrators and the user.
pub open spec fn is_the_users(facts: SecurityFacts, flags: u8) -> bool {
    &&& told(facts)
    &&& facts.control matches Ok(control) && control & 0x1000 != 0
    &&& facts.owner.worker
    &&& is_exact_list(facts.entries->Ok_0@, flags, Some(0x001f_01ffu32))
}

/// Whether a file of keys is ready: a regular file of the user alone, of at most a
/// mebibyte, that is text and has what is required.
pub open spec fn file_is_ready(facts: KeyFileFacts, required: Seq<String>) -> bool {
    &&& facts.handle matches Ok(information) && information.attributes & 0x410 == 0
    &&& is_the_users(facts.descriptor, 0)
    &&& facts.size matches Ok(size) && size <= 1048576
    &&& facts.bytes matches Ok(bytes) && bytes@.len() <= 1048576 && valid_utf8(bytes@)
        && has_what_is_required(decode_utf8(bytes@), required)
}

proof fn lemma_file_ready(facts: KeyFileFacts, required: Seq<String>)
    ensures
        authorized_keys::key_file_ready(facts, text::string_views(required)) == file_is_ready(
            facts,
            required,
        ),
{
    lemma_stored_object(
        &facts.descriptor,
        AclKind::UserFile,
        descriptor::descriptor_verdict(facts.descriptor, AclKind::UserFile),
    );
    assert(0x400u32 | 0x10u32 == 0x410u32) by (bit_vector);
    if let Ok(bytes) = facts.bytes {
        lemma_required(decode_utf8(bytes@), required);
    }
}

/// A file of keys is judged ready exactly where it is.
pub proof fn files_of_keys_are_ready(facts: &KeyFileFacts, required: &[String], ready: bool)
    requires
        call_ensures(authorized_keys_file_is_ready, (facts, required), ready),
    ensures
        ready <==> file_is_ready(*facts, required@),
{
    lemma_file_ready(*facts, required@);
}

/// Whether a user's keys let the controller in: `.ssh` is a directory of the user
/// alone, and one of the configured files is the user's own and ready.
pub open spec fn lets_in(
    directory: KeyDirectoryFacts,
    configured: Seq<Seq<char>>,
    files: Seq<KeyFileFacts>,
    required: Seq<String>,
) -> bool {
    &&& directory.attributes != 0xffff_ffff
    &&& directory.attributes & 0x400 == 0
    &&& directory.is_directory
    &&& is_the_users(directory.descriptor, 3)
    &&& exists|i: int|
        0 <= i < configured.len() && i < files.len() && (is_own(
            #[trigger] configured[i],
            ".ssh/authorized_keys"@,
        ) || is_own(configured[i], ".ssh/authorized_keys2"@)) && file_is_ready(files[i], required)
}

pub(crate) proof fn lemma_lets_in(
    profile: PathModel,
    directory: KeyDirectoryFacts,
    configured: Seq<Seq<char>>,
    files: Seq<KeyFileFacts>,
    required: Seq<String>,
)
    ensures
        authorized_keys::keys_ready(
            profile,
            directory,
            configured,
            files,
            text::string_views(required),
        ) == lets_in(directory, configured, files, required),
{
    lemma_stored_object(
        &directory.descriptor,
        AclKind::UserDirectory,
        descriptor::descriptor_verdict(directory.descriptor, AclKind::UserDirectory),
    );
    let views = text::string_views(required);
    assert forall|i: int| 0 <= i < configured.len() && i < files.len() implies (
    authorized_keys::key_path(profile, #[trigger] configured[i]) is Some
        && authorized_keys::key_file_ready(files[i], views)) == ((is_own(
        configured[i],
        ".ssh/authorized_keys"@,
    ) || is_own(configured[i], ".ssh/authorized_keys2"@)) && file_is_ready(files[i], required)) by {
        lemma_own(configured[i], ".ssh/authorized_keys"@);
        lemma_own(configured[i], ".ssh/authorized_keys2"@);
        lemma_file_ready(files[i], required);
    }
    if authorized_keys::keys_ready(profile, directory, configured, files, views) {
        let i = choose|i: int|
            0 <= i < configured.len() && i < files.len() && authorized_keys::key_path(
                profile,
                #[trigger] configured[i],
            ) is Some && authorized_keys::key_file_ready(files[i], views);
        assert(is_own(configured[i], ".ssh/authorized_keys"@) || is_own(
            configured[i],
            ".ssh/authorized_keys2"@,
        ));
    }
    if lets_in(directory, configured, files, required) {
        let i = choose|i: int|
            0 <= i < configured.len() && i < files.len() && (is_own(
                #[trigger] configured[i],
                ".ssh/authorized_keys"@,
            ) || is_own(configured[i], ".ssh/authorized_keys2"@)) && file_is_ready(
                files[i],
                required,
            );
        assert(authorized_keys::key_path(profile, configured[i]) is Some);
    }
}

/// A user's keys are judged ready exactly where they let the controller in.
pub proof fn ready_keys_let_in(
    profile: &WorkerPath,
    directory: &KeyDirectoryFacts,
    configured: &[String],
    files: &[KeyFileFacts],
    required: &[String],
    ready: bool,
)
    requires
        call_ensures(
            authorized_keys_are_ready,
            (profile, directory, configured, files, required),
            ready,
        ),
    ensures
        ready <==> lets_in(*directory, text::string_views(configured@), files@, required@),
{
    lemma_lets_in(profile@, *directory, text::string_views(configured@), files@, required@);
}

/// A string is taken off where its four bytes of length, the most significant first, and
/// as many more are there; what is behind it is left.
pub proof fn strings_are_taken_off_by_their_length<'a>(
    wire: &mut &'a [u8],
    value: Option<&'a [u8]>,
)
    requires
        call_ensures(ssh_key::take_ssh_wire_string, (wire,), value),
    ensures
        ({
            let before = (*old(wire))@;
            let after = (*final(wire))@;
            let length = 0x100_0000 * before[0] + 0x1_0000 * before[1] + 0x100 * before[2]
                + before[3];
            &&& value is Some <==> before.len() >= 4 && before.len() >= 4 + length
            &&& value matches Some(value) ==> value@.len() == length && before == before.take(4)
                + value@ + after
            &&& value is None ==> after == before
        }),
{
    let before = (*old(wire))@;
    if before.len() >= 4 {
        let head = before.take(4);
        if let Some(value) = value {
            assert(before =~= head + value@ + (*final(wire))@);
        }
    }
}

} // verus!
