//! Whether a user's authorized keys let the controller in.

use crate::acl::AclKind;
use crate::descriptor;
use crate::descriptor::{
    inspect_security_descriptor, path_is_reparse_point, SecurityFacts,
    FILE_ATTRIBUTE_REPARSE_POINT, INVALID_FILE_ATTRIBUTES,
};
use crate::error::PlatformError;
use crate::layout;
use crate::layout::{to_units, PathModel, WorkerPath};
use crate::publication;
use crate::publication::{private_file_identity, FileInformation};
use crate::scan;
use crate::scan::{split_lines, strip_prefix, trimmed};
use crate::ssh_key;
use crate::ssh_key::parse_authorized_key_line;
use crate::text;
use crate::text::{chars_of, decode_chars, same_text, spells, string_of};
use vstd::prelude::*;

verus! {

/// The longest file of authorized keys that is read, in bytes.
pub const MAX_KEY_FILE_BYTES: usize = 1048576;

// ---------------------------------------------------------------------------
// Where the keys are
// ---------------------------------------------------------------------------

/// A path with forward slashes only.
pub open spec fn forward(path: Seq<char>) -> Seq<char> {
    path.map_values(
        |c: char|
            if c == '\\' {
                '/'
            } else {
                c
            },
    )
}

/// A configured path without what stands for the user's profile.
pub open spec fn relative_to_profile(configured: Seq<char>) -> Seq<char> {
    let normalized = forward(configured);
    if scan::begins_with(normalized, "%h/"@) {
        normalized.skip("%h/"@.len() as int)
    } else if scan::begins_with(normalized, "./"@) {
        normalized.skip("./"@.len() as int)
    } else {
        normalized
    }
}

/// Where a configured file of the user's own keys is. A file that several users
/// share is none of them.
pub open spec fn key_path(profile: PathModel, configured: Seq<char>) -> Option<PathModel> {
    let relative = relative_to_profile(configured);
    let ssh = layout::joined(profile, layout::ascii_units(".ssh"@));
    if relative == ".ssh/authorized_keys"@ {
        Some(layout::joined(ssh, layout::ascii_units("authorized_keys"@)))
    } else if relative == ".ssh/authorized_keys2"@ {
        Some(layout::joined(ssh, layout::ascii_units("authorized_keys2"@)))
    } else {
        None
    }
}

/// What an optional path is.
pub open spec fn optional_path(path: Option<WorkerPath>) -> Option<PathModel> {
    match path {
        Some(path) => Some(path@),
        None => None,
    }
}

proof fn lemma_key_names()
    ensures
        forall|i: int| 0 <= i < ".ssh"@.len() ==> (#[trigger] ".ssh"@[i]) as u32 <= 0x7f,
        forall|i: int|
            0 <= i < "authorized_keys"@.len() ==> (#[trigger] "authorized_keys"@[i]) as u32 <= 0x7f,
        forall|i: int|
            0 <= i < "authorized_keys2"@.len() ==> (#[trigger] "authorized_keys2"@[i]) as u32
                <= 0x7f,
{
    reveal_strlit(".ssh");
    reveal_strlit("authorized_keys");
    reveal_strlit("authorized_keys2");
}

/// Finds where a configured file of the user's own keys is.
pub fn canonical_authorized_keys_path(profile: &WorkerPath, configured: &str) -> (path: Option<
    WorkerPath,
>)
    ensures
        optional_path(path) == key_path(profile@, configured@),
{
    let given = chars_of(configured);
    let mut normalized: Vec<char> = Vec::new();
    for i in 0..given.len()
        invariant
            given@ == configured@,
            normalized@.len() == i,
            forall|k: int| 0 <= k < i ==> normalized@[k] == forward(configured@)[k],
    {
        let c = given[i];
        normalized.push(
            if c == '\\' {
                '/'
            } else {
                c
            },
        );
    }
    assert(normalized@ =~= forward(configured@));
    let relative = match strip_prefix(&normalized, "%h/") {
        Some(rest) => rest,
        None => match strip_prefix(&normalized, "./") {
            Some(rest) => rest,
            None => normalized.as_slice(),
        },
    };
    assert(relative@ == relative_to_profile(configured@));
    proof {
        lemma_key_names();
    }
    let name: &str = if spells(relative, ".ssh/authorized_keys") {
        "authorized_keys"
    } else if spells(relative, ".ssh/authorized_keys2") {
        "authorized_keys2"
    } else {
        return None;
    };
    let ssh = profile.join(to_units(".ssh").as_slice());
    Some(ssh.join(to_units(name).as_slice()))
}

// ---------------------------------------------------------------------------
// What the keys are
// ---------------------------------------------------------------------------

/// The key in a line of a file.
pub open spec fn key_in(line: Seq<char>) -> Option<(Seq<char>, Seq<char>)> {
    ssh_key::authorized_key(scan::trim(line))
}

/// Whether lines hold a key.
pub open spec fn holds_key(lines: Seq<Seq<char>>, key: (Seq<char>, Seq<char>)) -> bool {
    exists|i: int| 0 <= i < lines.len() && key_in(#[trigger] lines[i]) == Some(key)
}

/// Whether lines hold the required keys: all of them, or any key where none is
/// required.
pub open spec fn keys_suffice(lines: Seq<Seq<char>>, required: Seq<Seq<char>>) -> bool {
    if required.len() == 0 {
        exists|i: int| 0 <= i < lines.len() && key_in(#[trigger] lines[i]) is Some
    } else {
        forall|i: int|
            0 <= i < required.len() ==> {
                let key = ssh_key::authorized_key(#[trigger] required[i]);
                key is Some && holds_key(lines, key->0)
            }
    }
}

fn line_holds(line: &str, key_type: &str, encoded: &str) -> (holds: bool)
    ensures
        holds == (ssh_key::authorized_key(line@) == Some((key_type@, encoded@))),
{
    match parse_authorized_key_line(line) {
        Some(key) => same_text(key.key_type, key_type) && same_text(key.encoded, encoded),
        None => false,
    }
}

fn texts_hold(texts: &[String], key_type: &str, encoded: &str) -> (holds: bool)
    ensures
        holds == exists|i: int|
            0 <= i < texts@.len() && ssh_key::authorized_key((#[trigger] texts@[i])@) == Some(
                (key_type@, encoded@),
            ),
{
    for i in 0..texts.len()
        invariant
            forall|k: int|
                0 <= k < i ==> ssh_key::authorized_key((#[trigger] texts@[k])@) != Some(
                    (key_type@, encoded@),
                ),
    {
        if line_holds(texts[i].as_str(), key_type, encoded) {
            assert(ssh_key::authorized_key(texts@[i as int]@) == Some((key_type@, encoded@)));
            return true;
        }
    }
    false
}

/// Whether the lines of a text hold the required keys.
pub fn keys_are_sufficient(contents: &[char], required: &[String]) -> (sufficient: bool)
    ensures
        sufficient == keys_suffice(scan::lines(contents@), text::string_views(required@)),
{
    let pieces = split_lines(contents);
    let ghost lines = scan::lines(contents@);
    let ghost wanted = text::string_views(required@);
    let mut texts: Vec<String> = Vec::new();
    let mut any = false;
    for i in 0..pieces.len()
        invariant
            lines == scan::lines(contents@),
            pieces@.len() == lines.len(),
            forall|k: int| 0 <= k < pieces@.len() ==> (#[trigger] pieces@[k])@ == lines[k],
            texts@.len() == i,
            forall|k: int| 0 <= k < i ==> (#[trigger] texts@[k])@ == scan::trim(lines[k]),
            any == exists|k: int| 0 <= k < i && key_in(#[trigger] lines[k]) is Some,
    {
        assert(pieces@[i as int]@ == lines[i as int]);
        let text = string_of(trimmed(&pieces[i]));
        if parse_authorized_key_line(text.as_str()).is_some() {
            assert(key_in(lines[i as int]) is Some);
            any = true;
        }
        texts.push(text);
    }
    if required.len() == 0 {
        return any;
    }
    for i in 0..required.len()
        invariant
            lines == scan::lines(contents@),
            wanted == text::string_views(required@),
            wanted.len() > 0,
            texts@.len() == lines.len(),
            forall|k: int| 0 <= k < texts@.len() ==> (#[trigger] texts@[k])@ == scan::trim(lines[k]),
            forall|k: int|
                0 <= k < i ==> {
                    let key = ssh_key::authorized_key(#[trigger] wanted[k]);
                    key is Some && holds_key(lines, key->0)
                },
    {
        assert(wanted[i as int] == required@[i as int]@);
        match parse_authorized_key_line(required[i].as_str()) {
            None => {
                return false;
            },
            Some(key) => {
                let held = texts_hold(&texts, key.key_type, key.encoded);
                proof {
                    let pair = (key.key_type@, key.encoded@);
                    if held {
                        let k = choose|k: int|
                            0 <= k < texts@.len() && ssh_key::authorized_key(
                                (#[trigger] texts@[k])@,
                            ) == Some(pair);
                        assert(key_in(lines[k]) == Some(pair));
                    } else {
                        assert forall|k: int| 0 <= k < lines.len() implies key_in(
                            #[trigger] lines[k],
                        ) != Some(pair) by {
                            assert(texts@[k]@ == scan::trim(lines[k]));
                        }
                    }
                    assert(held == holds_key(lines, pair));
                }
                if !held {
                    return false;
                }
            },
        }
    }
    true
}

/// What was found out of a file of authorized keys: the open file, its
/// descriptor, its size, and what was read of it.
#[derive(Debug)]
pub struct KeyFileFacts {
    pub handle: Result<FileInformation, PlatformError>,
    pub descriptor: SecurityFacts,
    pub size: Result<u64, PlatformError>,
    pub bytes: Result<Vec<u8>, PlatformError>,
}

/// Whether a file lets the controller in: it is the user's own regular file with
/// a user's rules, not too large, and holds the required keys.
pub open spec fn key_file_ready(facts: KeyFileFacts, required: Seq<Seq<char>>) -> bool {
    &&& publication::regular_identity(
        facts.handle,
        "private store target is not a regular file",
    ) is Ok
    &&& descriptor::descriptor_verdict(facts.descriptor, AclKind::UserFile) is Ok
    &&& facts.size matches Ok(size) && size <= MAX_KEY_FILE_BYTES
    &&& facts.bytes matches Ok(bytes) && bytes@.len() <= MAX_KEY_FILE_BYTES && (
    text::decoded(bytes@) matches Some(contents) && keys_suffice(scan::lines(contents), required))
}

/// Judges a file of authorized keys.
pub fn authorized_keys_file_is_ready(facts: &KeyFileFacts, required: &[String]) -> (ready: bool)
    ensures
        ready == key_file_ready(*facts, text::string_views(required@)),
{
    if private_file_identity(&facts.handle).is_err() {
        return false;
    }
    if inspect_security_descriptor(&facts.descriptor, AclKind::UserFile).is_err() {
        return false;
    }
    match facts.size {
        Ok(size) => {
            if size > MAX_KEY_FILE_BYTES as u64 {
                return false;
            }
        },
        Err(_) => {
            return false;
        },
    }
    match &facts.bytes {
        Ok(bytes) => {
            if bytes.len() > MAX_KEY_FILE_BYTES {
                return false;
            }
            match decode_chars(bytes) {
                Some(contents) => keys_are_sufficient(&contents, required),
                None => false,
            }
        },
        Err(_) => false,
    }
}

/// What was found out of the directory of a user's keys.
#[derive(Debug)]
pub struct KeyDirectoryFacts {
    pub attributes: u32,
    pub is_directory: bool,
    pub descriptor: SecurityFacts,
}

/// Whether a directory may hold a user's keys.
pub open spec fn key_directory_ready(facts: KeyDirectoryFacts) -> bool {
    &&& facts.attributes != INVALID_FILE_ATTRIBUTES
    &&& facts.attributes & FILE_ATTRIBUTE_REPARSE_POINT == 0
    &&& facts.is_directory
    &&& descriptor::descriptor_verdict(facts.descriptor, AclKind::UserDirectory) is Ok
}

/// Whether a user's keys let the controller in: the directory is safe, and one
/// of the configured files of the user's own is ready. `files` are what was found
/// out of the configured files, in their order.
pub open spec fn keys_ready(
    profile: PathModel,
    directory: KeyDirectoryFacts,
    configured: Seq<Seq<char>>,
    files: Seq<KeyFileFacts>,
    required: Seq<Seq<char>>,
) -> bool {
    &&& key_directory_ready(directory)
    &&& exists|i: int|
        0 <= i < configured.len() && i < files.len() && key_path(profile, #[trigger] configured[i])
            is Some && key_file_ready(files[i], required)
}

/// Judges whether a user's keys let the controller in.
pub fn authorized_keys_are_ready(
    profile: &WorkerPath,
    directory: &KeyDirectoryFacts,
    configured: &[String],
    files: &[KeyFileFacts],
    required: &[String],
) -> (ready: bool)
    ensures
        ready == keys_ready(
            profile@,
            *directory,
            text::string_views(configured@),
            files@,
            text::string_views(required@),
        ),
{
    let ghost paths = text::string_views(configured@);
    let ghost wanted = text::string_views(required@);
    if path_is_reparse_point(directory.attributes) || !directory.is_directory
        || inspect_security_descriptor(&directory.descriptor, AclKind::UserDirectory).is_err() {
        return false;
    }
    for i in 0..configured.len()
        invariant
            paths == text::string_views(configured@),
            wanted == text::string_views(required@),
            key_directory_ready(*directory),
            forall|k: int|
                0 <= k < i ==> !(k < files@.len() && key_path(profile@, #[trigger] paths[k]) is Some
                    && key_file_ready(files@[k], wanted)),
    {
        assert(paths[i as int] == configured@[i as int]@);
        if i < files.len() && canonical_authorized_keys_path(
            profile,
            configured[i].as_str(),
        ).is_some() && authorized_keys_file_is_ready(&files[i], required) {
            assert(key_path(profile@, paths[i as int]) is Some);
            return true;
        }
    }
    false
}

/// Keys that several users share never count: a configured path counts only if
/// it is one of the two files in the user's own directory.
pub proof fn only_the_users_own_key_files_count(profile: PathModel, configured: Seq<char>)
    ensures
        key_path(profile, configured) matches Some(path) ==> {
            &&& layout::lies_below(path, profile)
            &&& path.components.len() == profile.components.len() + 2
            &&& path.components[profile.components.len() as int] == layout::ascii_units(".ssh"@)
        },
{
    if let Some(path) = key_path(profile, configured) {
        assert(path.components.take(profile.components.len() as int) =~= profile.components);
    }
}

} // verus!
