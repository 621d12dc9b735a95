//! The effective configuration that an OpenSSH server prints.

use crate::scan;
use crate::scan::{split_fields, split_lines};
use crate::text;
use crate::text::{decode_chars, is_all_graphic, len_in_bytes, spells, string_of};
use vstd::prelude::*;

verus! {

/// The most output of a probe command that is looked at, in bytes.
pub const BASELINE_OUTPUT_LIMIT: usize = 65536;

/// The longest path to an authorized-keys file, in bytes.
pub const MAX_AUTHORIZED_KEYS_PATH_BYTES: usize = 1024;

/// What the server does with public keys.
#[derive(Clone, Debug, Eq, PartialEq)]
pub struct EffectiveSshdConfig {
    public_key_authentication: bool,
    authorized_keys_files: Vec<String>,
}

impl EffectiveSshdConfig {
    /// Whether the server accepts public keys.
    pub closed spec fn accepts_keys(self) -> bool {
        self.public_key_authentication
    }

    /// The paths of the authorized-keys files.
    pub closed spec fn key_files(self) -> Seq<Seq<char>> {
        text::string_views(self.authorized_keys_files@)
    }

    /// Whether the server accepts public keys.
    pub fn public_key_authentication(&self) -> (accepts: bool)
        ensures
            accepts == self.accepts_keys(),
    {
        self.public_key_authentication
    }

    /// The paths of the authorized-keys files.
    pub fn authorized_keys_files(&self) -> (files: &[String])
        ensures
            text::string_views(files@) == self.key_files(),
    {
        self.authorized_keys_files.as_slice()
    }
}

/// The rows whose first field is `name`.
pub open spec fn rows_named(rows: Seq<Seq<Seq<char>>>, name: Seq<char>) -> Seq<Seq<Seq<char>>>
    decreases rows.len(),
{
    if rows.len() == 0 {
        seq![]
    } else if rows[0][0] == name {
        seq![rows[0]] + rows_named(rows.drop_first(), name)
    } else {
        rows_named(rows.drop_first(), name)
    }
}

/// Whether `path` can name an authorized-keys file.
pub open spec fn acceptable_path(path: Seq<char>) -> bool {
    &&& text::byte_len(path) <= MAX_AUTHORIZED_KEYS_PATH_BYTES
    &&& path != "none"@
    &&& text::all_graphic(path)
}

/// The paths that can name an authorized-keys file.
pub open spec fn acceptable_paths(paths: Seq<Seq<char>>) -> Seq<Seq<char>>
    decreases paths.len(),
{
    if paths.len() == 0 {
        seq![]
    } else if acceptable_path(paths[0]) {
        seq![paths[0]] + acceptable_paths(paths.drop_first())
    } else {
        acceptable_paths(paths.drop_first())
    }
}

/// The value of a row that must hold `yes` or `no` and nothing else.
pub open spec fn yes_or_no(row: Seq<Seq<char>>) -> Option<bool> {
    if row.len() == 2 && row[1] == "yes"@ {
        Some(true)
    } else if row.len() == 2 && row[1] == "no"@ {
        Some(false)
    } else {
        None
    }
}

/// The fields of each line.
pub open spec fn rows(output: Seq<char>) -> Seq<Seq<Seq<char>>> {
    scan::lines(output).map_values(|line: Seq<char>| scan::fields(line))
}

/// What `output` configures: whether keys are accepted, and the files that
/// hold them. No line is blank, and each of the two directives stands exactly
/// once, with a usable value.
pub open spec fn configured(output: Seq<char>) -> Option<(bool, Seq<Seq<char>>)> {
    let all = rows(output);
    let authentication = rows_named(all, "publickeyauthentication"@);
    let files = rows_named(all, "authorizedkeysfile"@);
    if (forall|i: int| 0 <= i < all.len() ==> (#[trigger] all[i]).len() > 0)
        && authentication.len() == 1 && files.len() == 1 && acceptable_paths(
        files[0].skip(1),
    ).len() > 0 {
        match yes_or_no(authentication[0]) {
            Some(value) => Some((value, acceptable_paths(files[0].skip(1)))),
            None => None,
        }
    } else {
        None
    }
}

/// What a server configures that prints `bytes`.
pub open spec fn effective_config(bytes: Seq<u8>) -> Option<(bool, Seq<Seq<char>>)> {
    if bytes.len() > BASELINE_OUTPUT_LIMIT {
        None
    } else {
        match text::decoded(bytes) {
            Some(output) => configured(output),
            None => None,
        }
    }
}

fn path_is_acceptable(path: &Vec<char>) -> (acceptable: bool)
    ensures
        acceptable == acceptable_path(path@),
{
    let string = string_of(path);
    len_in_bytes(&string) <= MAX_AUTHORIZED_KEYS_PATH_BYTES && !spells(path, "none")
        && is_all_graphic(path)
}

/// The fields behind the first that can name an authorized-keys file.
fn collect_paths(row: &Vec<Vec<char>>) -> (paths: Vec<String>)
    requires
        row@.len() > 0,
    ensures
        text::string_views(paths@) == acceptable_paths(field_texts(row@).skip(1)),
{
    let mut paths: Vec<String> = Vec::new();
    let ghost all = field_texts(row@).skip(1);
    assert(all.skip(0) == all);
    for i in 1..row.len()
        invariant
            1 <= i <= row@.len(),
            all == field_texts(row@).skip(1),
            text::string_views(paths@) + acceptable_paths(all.skip(i - 1)) == acceptable_paths(all),
    {
        let ghost rest = all.skip(i - 1);
        let ghost before = text::string_views(paths@);
        assert(rest[0] == row@[i as int]@);
        assert(rest.drop_first() == all.skip(i as int));
        if path_is_acceptable(&row[i]) {
            paths.push(string_of(&row[i]));
            assert(text::string_views(paths@) == before.push(rest[0]));
            assert(before.push(rest[0]) + acceptable_paths(all.skip(i as int)) == before + (
            seq![rest[0]] + acceptable_paths(all.skip(i as int))));
        }
    }
    assert(all.skip(row@.len() - 1).len() == 0);
    assert(text::string_views(paths@) + acceptable_paths(all.skip(row@.len() - 1)) == text::string_views(paths@));
    paths
}

/// The texts of a vector of fields.
pub open spec fn field_texts(row: Seq<Vec<char>>) -> Seq<Seq<char>> {
    row.map_values(|field: Vec<char>| field@)
}

/// What a server configures that prints `bytes`.
pub fn parse_effective_sshd_config(bytes: &[u8]) -> (config: Option<EffectiveSshdConfig>)
    ensures
        match config {
            Some(config) => effective_config(bytes@) == Some(
                (config.accepts_keys(), config.key_files()),
            ),
            None => effective_config(bytes@) is None,
        },
{
    if bytes.len() > BASELINE_OUTPUT_LIMIT {
        return None;
    }
    let output = match decode_chars(bytes) {
        Some(output) => output,
        None => {
            return None;
        },
    };
    let all_lines = split_lines(&output);
    let ghost all = rows(output@);
    let ghost authentication_name = "publickeyauthentication"@;
    let ghost files_name = "authorizedkeysfile"@;
    let mut authentication: Option<bool> = None;
    let mut files: Option<Vec<String>> = None;
    let ghost mut seen_authentication: Seq<Seq<Seq<char>>> = seq![];
    let ghost mut seen_files: Seq<Seq<Seq<char>>> = seq![];
    assert(all.skip(0) == all);
    assert(seen_authentication + rows_named(all, authentication_name) == rows_named(
        all,
        authentication_name,
    ));
    assert(seen_files + rows_named(all, files_name) == rows_named(all, files_name));
    for i in 0..all_lines.len()
        invariant
            all == rows(output@),
            all_lines@.len() == scan::lines(output@).len(),
            forall|j: int|
                0 <= j < all_lines@.len() ==> (#[trigger] all_lines@[j])@ == scan::lines(
                    output@,
                )[j],
            authentication_name == "publickeyauthentication"@,
            files_name == "authorizedkeysfile"@,
            effective_config(bytes@) == configured(output@),
            forall|j: int| 0 <= j < i ==> (#[trigger] all[j]).len() > 0,
            seen_authentication + rows_named(all.skip(i as int), authentication_name)
                == rows_named(all, authentication_name),
            seen_files + rows_named(all.skip(i as int), files_name) == rows_named(all, files_name),
            match authentication {
                None => seen_authentication.len() == 0,
                Some(value) => seen_authentication.len() == 1 && yes_or_no(seen_authentication[0])
                    == Some(value),
            },
            match files {
                None => seen_files.len() == 0,
                Some(paths) => seen_files.len() == 1 && paths@.len() > 0 && text::string_views(paths@)
                    == acceptable_paths(seen_files[0].skip(1)),
            },
    {
        let row = split_fields(&all_lines[i]);
        let ghost rest = all.skip(i as int);
        proof {
            assert(all_lines@[i as int]@ == scan::lines(output@)[i as int]);
            assert(rest[0] == all[i as int]);
            assert(all[i as int] == scan::fields(all_lines@[i as int]@));
            assert(field_texts(row@) == all[i as int]);
            assert(rest.drop_first() == all.skip(i + 1));
        }
        if row.len() == 0 {
            assert(all[i as int].len() == 0);
            return None;
        }
        assert(row@[0]@ == all[i as int][0]);
        if spells(&row[0], "publickeyauthentication") {
            proof {
                assert(authentication_name != files_name) by {
                    reveal_strlit("publickeyauthentication");
                    reveal_strlit("authorizedkeysfile");
                    assert(authentication_name.len() == 23);
                    assert(files_name.len() == 18);
                }
                assert(rows_named(rest, authentication_name) == seq![rest[0]] + rows_named(
                    all.skip(i + 1),
                    authentication_name,
                ));
                assert(rows_named(all, authentication_name)[seen_authentication.len() as int]
                    == rest[0]);
            }
            let value: Option<bool> = if row.len() == 2 && spells(&row[1], "yes") {
                Some(true)
            } else if row.len() == 2 && spells(&row[1], "no") {
                Some(false)
            } else {
                None
            };
            assert(value == yes_or_no(rest[0])) by {
                if row@.len() == 2 {
                    assert(row@[1]@ == all[i as int][1]);
                }
            }
            if value.is_none() || authentication.is_some() {
                return None;
            }
            authentication = value;
            proof {
                seen_authentication = seen_authentication.push(rest[0]);
                assert(seen_authentication + rows_named(all.skip(i + 1), authentication_name)
                    == rows_named(all, authentication_name));
            }
        } else if spells(&row[0], "authorizedkeysfile") {
            proof {
                assert(rows_named(rest, files_name) == seq![rest[0]] + rows_named(
                    all.skip(i + 1),
                    files_name,
                ));
                assert(rows_named(all, files_name)[seen_files.len() as int] == rest[0]);
            }
            let paths = collect_paths(&row);
            assert(text::string_views(paths@).len() == paths@.len());
            if paths.len() == 0 || files.is_some() {
                return None;
            }
            files = Some(paths);
            proof {
                seen_files = seen_files.push(rest[0]);
                assert(seen_files + rows_named(all.skip(i + 1), files_name) == rows_named(
                    all,
                    files_name,
                ));
            }
        }
    }
    assert(all.skip(all.len() as int).len() == 0);
    assert(rows_named(all, authentication_name) == seen_authentication);
    assert(rows_named(all, files_name) == seen_files);
    match (authentication, files) {
        (Some(public_key_authentication), Some(authorized_keys_files)) => Some(
            EffectiveSshdConfig { public_key_authentication, authorized_keys_files },
        ),
        _ => None,
    }
}

} // verus!
