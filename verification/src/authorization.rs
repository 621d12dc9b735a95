//! Asking the user to authorize the privileged phase of setup: what may be
//! started, with which arguments, and what came of it.

use crate::error;
use crate::error::{permission_denied, require_all, ErrorKind, PlatformError};
use crate::principal::WorkerPrincipal;
use crate::scan;
use crate::scan::{contains_text, lowered};
use crate::text;
use crate::text::{chars_of, same_bytes};
use vstd::prelude::*;
use vstd::slice::slice_to_vec;
use vstd::utf8::encode_utf8;

verus! {

// ---------------------------------------------------------------------------
// Arguments
// ---------------------------------------------------------------------------

/// What is known of the paths of an authorization: of each whether it is
/// absolute, where the two programs really are, and what the request's path
/// looks like.
#[derive(Debug)]
pub struct AuthorizationPaths {
    pub executable_is_absolute: bool,
    pub request_is_absolute: bool,
    pub current_is_absolute: bool,
    pub canonical_executable: Result<Vec<u8>, PlatformError>,
    pub canonical_current: Result<Vec<u8>, PlatformError>,
    pub request_has_relative_component: bool,
    pub request_file_name: Option<Vec<u8>>,
    pub request_text: Option<String>,
}

/// The characters that a request's path must not hold.
pub open spec fn is_unsafe_char(c: char) -> bool {
    text::is_control(c) || c == '=' || c == '?' || c == '#' || c == '\'' || c == '"'
}

/// The words that tell of a secret.
pub open spec fn tells_secret(lowered: Seq<char>) -> bool {
    ||| scan::occurs(lowered, "api_key"@)
    ||| scan::occurs(lowered, "apikey"@)
    ||| scan::occurs(lowered, "auth_key"@)
    ||| scan::occurs(lowered, "authkey"@)
    ||| scan::occurs(lowered, "password"@)
    ||| scan::occurs(lowered, "passwd"@)
    ||| scan::occurs(lowered, "private_key"@)
    ||| scan::occurs(lowered, "credential"@)
    ||| scan::occurs(lowered, "bearer"@)
    ||| scan::occurs(lowered, "secret"@)
    ||| scan::occurs(lowered, "token"@)
}

/// A path that may be shown among the arguments of a program.
pub open spec fn safe_for_argv(path: Option<Seq<char>>) -> bool {
    &&& path matches Some(path)
    &&& forall|i: int| 0 <= i < path.len() ==> !is_unsafe_char(#[trigger] path[i])
    &&& !tells_secret(scan::lower(path))
}

/// Whether a path may be shown among the arguments of a program; a path that is
/// no text may not.
pub fn authorization_request_path_is_safe_for_argv(path: &Option<String>) -> (safe: bool)
    ensures
        safe == safe_for_argv(text::optional_text(*path)),
{
    let chars = match path {
        Some(path) => chars_of(path.as_str()),
        None => {
            return false;
        },
    };
    for i in 0..chars.len()
        invariant
            text::optional_text(*path) == Some(chars@),
            forall|k: int| 0 <= k < i ==> !is_unsafe_char(#[trigger] chars@[k]),
    {
        let c = chars[i];
        if text::control(c) || c == '=' || c == '?' || c == '#' || c == '\'' || c == '"' {
            assert(is_unsafe_char(chars@[i as int]));
            return false;
        }
    }
    let low = lowered(&chars);
    !(contains_text(&low, "api_key") || contains_text(&low, "apikey") || contains_text(
        &low,
        "auth_key",
    ) || contains_text(&low, "authkey") || contains_text(&low, "password") || contains_text(
        &low,
        "passwd",
    ) || contains_text(&low, "private_key") || contains_text(&low, "credential") || contains_text(
        &low,
        "bearer",
    ) || contains_text(&low, "secret") || contains_text(&low, "token"))
}

/// The digest of a request: sixty-four lower-case hexadecimal digits.
pub open spec fn request_digest(digest: Seq<char>) -> bool {
    &&& digest.len() == 64
    &&& forall|i: int|
        0 <= i < digest.len() ==> ('0' <= #[trigger] digest[i] <= '9') || ('a' <= digest[i] <= 'f')
}

fn is_request_digest(digest: &str) -> (valid: bool)
    ensures
        valid == request_digest(digest@),
{
    let chars = chars_of(digest);
    if chars.len() != 64 {
        return false;
    }
    for i in 0..chars.len()
        invariant
            chars@ == digest@,
            forall|k: int|
                0 <= k < i ==> ('0' <= #[trigger] chars@[k] <= '9') || ('a' <= chars@[k] <= 'f'),
    {
        let c = chars[i];
        if !(('0' <= c && c <= '9') || ('a' <= c && c <= 'f')) {
            return false;
        }
    }
    true
}

/// Why an authorization is not asked for, if it is not.
pub open spec fn authorization_verdict(paths: AuthorizationPaths, digest: Seq<char>) -> Result<
    (),
    PlatformError,
> {
    if !paths.executable_is_absolute || !paths.request_is_absolute || !paths.current_is_absolute {
        Err(error::bad_input("setup authorization paths must be absolute"))
    } else {
        match (paths.canonical_executable, paths.canonical_current) {
            (Err(failure), _) => Err(failure),
            (Ok(_), Err(failure)) => Err(failure),
            (Ok(executable), Ok(current)) => if executable@ != current@ {
                Err(error::denied("setup authorization executable is not the current binary"))
            } else if paths.request_has_relative_component {
                Err(error::bad_input("setup authorization request path is not normalized"))
            } else if !(paths.request_file_name matches Some(name) && name@ == encode_utf8(
                "authorization-request.json"@,
            )) || !safe_for_argv(text::optional_text(paths.request_text)) {
                Err(
                    error::bad_input(
                        "setup authorization request path is outside the closed request shape",
                    ),
                )
            } else if !request_digest(digest) {
                Err(error::bad_input("setup authorization request digest is invalid"))
            } else {
                Ok(())
            },
        }
    }
}

/// The arguments of the privileged phase.
pub open spec fn phase_arguments(request: Seq<char>, digest: Seq<char>) -> Seq<Seq<char>> {
    seq!["setup"@, "privileged-phase"@, "--request"@, request, "--digest"@, digest]
}

fn bad_input(message: &'static str) -> (refusal: PlatformError)
    ensures
        refusal == error::bad_input(message),
{
    PlatformError::Policy { kind: ErrorKind::InvalidInput, message }
}

/// The arguments of the privileged phase, for a request that may be authorized.
pub fn validated_privileged_phase_arguments(paths: &AuthorizationPaths, digest: &str) -> (result:
    Result<Vec<String>, PlatformError>)
    ensures
        match result {
            Ok(arguments) => {
                &&& authorization_verdict(*paths, digest@) is Ok
                &&& text::string_views(arguments@) == phase_arguments(paths.request_text->0@, digest@)
            },
            Err(refusal) => authorization_verdict(*paths, digest@) == Err::<(), _>(refusal),
        },
{
    if !paths.executable_is_absolute || !paths.request_is_absolute || !paths.current_is_absolute {
        return Err(bad_input("setup authorization paths must be absolute"));
    }
    let executable = match &paths.canonical_executable {
        Ok(executable) => executable,
        Err(failure) => {
            return Err(*failure);
        },
    };
    let current = match &paths.canonical_current {
        Ok(current) => current,
        Err(failure) => {
            return Err(*failure);
        },
    };
    if !same_bytes(executable, current) {
        return Err(permission_denied("setup authorization executable is not the current binary"));
    }
    if paths.request_has_relative_component {
        return Err(bad_input("setup authorization request path is not normalized"));
    }
    let named = match &paths.request_file_name {
        Some(name) => same_bytes(name, "authorization-request.json".as_bytes()),
        None => false,
    };
    if !named || !authorization_request_path_is_safe_for_argv(&paths.request_text) {
        return Err(
            bad_input("setup authorization request path is outside the closed request shape"),
        );
    }
    if !is_request_digest(digest) {
        return Err(bad_input("setup authorization request digest is invalid"));
    }
    let request = match &paths.request_text {
        Some(request) => request,
        None => {
            return Err(
                bad_input("setup authorization request path is outside the closed request shape"),
            );
        },
    };
    let mut arguments: Vec<String> = Vec::new();
    arguments.push("setup".to_owned());
    arguments.push("privileged-phase".to_owned());
    arguments.push("--request".to_owned());
    arguments.push(request.clone());
    arguments.push("--digest".to_owned());
    arguments.push(digest.to_owned());
    assert(text::string_views(arguments@) =~= phase_arguments(request@, digest@));
    Ok(arguments)
}

/// A refusal never repeats the path that it refuses: what it says is one of a
/// few fixed texts, or a failure of the operating system.
pub proof fn refusals_do_not_echo(paths: AuthorizationPaths, digest: Seq<char>)
    ensures
        authorization_verdict(paths, digest) matches Err(refusal) ==> {
            ||| refusal == error::bad_input("setup authorization paths must be absolute")
            ||| refusal == error::denied("setup authorization executable is not the current binary")
            ||| refusal == error::bad_input("setup authorization request path is not normalized")
            ||| refusal == error::bad_input(
                "setup authorization request path is outside the closed request shape",
            )
            ||| refusal == error::bad_input("setup authorization request digest is invalid")
            ||| paths.canonical_executable == Err::<Vec<u8>, _>(refusal)
            ||| paths.canonical_current == Err::<Vec<u8>, _>(refusal)
        },
{
}

// ---------------------------------------------------------------------------
// Unix
// ---------------------------------------------------------------------------

/// A program to start and its arguments.
#[derive(Debug)]
pub struct UnixAuthorizationInvocation {
    pub program: String,
    pub arguments: Vec<Vec<u8>>,
}

/// The bytes of texts.
pub open spec fn encoded_texts(texts: Seq<Seq<char>>) -> Seq<Seq<u8>> {
    texts.map_values(|text: Seq<char>| encode_utf8(text))
}

/// The program that asks for authorization, and its arguments: an end of
/// options, the program to run and the arguments of its privileged phase.
pub fn unix_authorization_invocation(paths: &AuthorizationPaths, digest: &str) -> (result: Result<
    UnixAuthorizationInvocation,
    PlatformError,
>)
    ensures
        match result {
            Ok(invocation) => {
                &&& authorization_verdict(*paths, digest@) is Ok
                &&& invocation.program@ == "/usr/bin/sudo"@
                &&& text::byte_views(invocation.arguments@) == seq![
                    encode_utf8("--"@),
                    paths.canonical_executable->Ok_0@,
                ] + encoded_texts(phase_arguments(paths.request_text->0@, digest@))
            },
            Err(refusal) => authorization_verdict(*paths, digest@) == Err::<(), _>(refusal),
        },
{
    let child_arguments = match validated_privileged_phase_arguments(paths, digest) {
        Ok(arguments) => arguments,
        Err(refusal) => {
            return Err(refusal);
        },
    };
    let executable = match &paths.canonical_executable {
        Ok(executable) => executable,
        Err(failure) => {
            return Err(*failure);
        },
    };
    let mut arguments: Vec<Vec<u8>> = Vec::new();
    arguments.push(slice_to_vec("--".as_bytes()));
    arguments.push(slice_to_vec(executable));
    let ghost views = text::string_views(child_arguments@);
    for i in 0..child_arguments.len()
        invariant
            views == text::string_views(child_arguments@),
            arguments@.len() == i + 2,
            arguments@[0]@ == encode_utf8("--"@),
            arguments@[1]@ == executable@,
            forall|k: int|
                0 <= k < i ==> (#[trigger] arguments@[k + 2])@ == encode_utf8(views[k]),
    {
        assert(views[i as int] == child_arguments@[i as int]@);
        arguments.push(slice_to_vec(child_arguments[i].as_str().as_bytes()));
    }
    proof {
        let expected = seq![encode_utf8("--"@), executable@] + encoded_texts(views);
        assert forall|k: int| 0 <= k < expected.len() implies text::byte_views(arguments@)[k]
            == expected[k] by {
            if k >= 2 {
                assert(arguments@[(k - 2) + 2]@ == encode_utf8(views[k - 2]));
            }
        }
        assert(text::byte_views(arguments@) =~= expected);
    }
    Ok(UnixAuthorizationInvocation { program: "/usr/bin/sudo".to_owned(), arguments })
}

/// A program that may be started with authority: root's, executable by someone,
/// writable only by its owner, and gaining nothing when it starts.
pub open spec fn executable_metadata_is_safe(is_file: bool, uid: u32, mode: u32) -> bool {
    is_file && uid == 0 && mode & 0o111 != 0 && mode & 0o6000 == 0 && mode & 0o022 == 0
}

/// Whether a program may be started with authority.
pub fn unix_authorization_executable_metadata_is_safe(is_file: bool, uid: u32, mode: u32) -> (safe:
    bool)
    ensures
        safe == executable_metadata_is_safe(is_file, uid, mode),
{
    is_file && uid == 0 && mode & 0o111 != 0 && mode & 0o6000 == 0 && mode & 0o022 == 0
}

/// What was read of a file or a directory: its metadata, and what a closer look
/// at its access rules gave.
#[derive(Debug)]
pub struct UnixPathFacts {
    pub is_file: bool,
    pub is_directory: bool,
    pub uid: u32,
    pub mode: u32,
    pub path_security: Result<(), PlatformError>,
}

/// A directory above a program that only root can change.
pub open spec fn ancestor_is_safe(facts: UnixPathFacts) -> bool {
    facts.is_directory && facts.uid == 0 && facts.mode & 0o022 == 0
}

/// What a directory above a program says about it.
pub open spec fn unix_ancestor_verdict(facts: Result<UnixPathFacts, PlatformError>) -> Result<
    (),
    PlatformError,
> {
    match facts {
        Err(failure) => Err(failure),
        Ok(facts) => if !ancestor_is_safe(facts) {
            Err(error::denied("setup authorization executable ancestry is user-writable"))
        } else {
            facts.path_security
        },
    }
}

/// What a program and the directories above it, the nearest first, say about
/// starting it with authority.
pub open spec fn unix_executable_verdict(
    executable: Result<UnixPathFacts, PlatformError>,
    ancestors: Seq<Result<UnixPathFacts, PlatformError>>,
) -> Result<(), PlatformError> {
    match executable {
        Err(failure) => Err(failure),
        Ok(facts) => if !executable_metadata_is_safe(facts.is_file, facts.uid, facts.mode) {
            Err(
                error::denied(
                    "setup authorization requires an immutable system-installed Styrn executable",
                ),
            )
        } else if facts.path_security is Err {
            facts.path_security
        } else {
            error::first_refusal(
                ancestors.map_values(
                    |facts: Result<UnixPathFacts, PlatformError>| unix_ancestor_verdict(facts),
                ),
            )
        },
    }
}

fn judge_ancestor(facts: &Result<UnixPathFacts, PlatformError>) -> (result: Result<
    (),
    PlatformError,
>)
    ensures
        result == unix_ancestor_verdict(*facts),
{
    match facts {
        Err(failure) => Err(*failure),
        Ok(facts) => if !facts.is_directory || facts.uid != 0 || facts.mode & 0o022 != 0 {
            Err(permission_denied("setup authorization executable ancestry is user-writable"))
        } else {
            facts.path_security
        },
    }
}

/// Judges a program and the directories above it.
pub fn verify_setup_authorization_executable(
    executable: &Result<UnixPathFacts, PlatformError>,
    ancestors: &[Result<UnixPathFacts, PlatformError>],
) -> (result: Result<(), PlatformError>)
    ensures
        result == unix_executable_verdict(*executable, ancestors@),
{
    match executable {
        Err(failure) => {
            return Err(*failure);
        },
        Ok(facts) => {
            if !unix_authorization_executable_metadata_is_safe(
                facts.is_file,
                facts.uid,
                facts.mode,
            ) {
                return Err(
                    permission_denied(
                        "setup authorization requires an immutable system-installed Styrn executable",
                    ),
                );
            }
            match facts.path_security {
                Ok(()) => {},
                Err(refusal) => {
                    return Err(refusal);
                },
            }
        },
    }
    let mut verdicts: Vec<Result<(), PlatformError>> = Vec::new();
    for i in 0..ancestors.len()
        invariant
            verdicts@.len() == i,
            forall|k: int|
                0 <= k < i ==> (#[trigger] verdicts@[k]) == unix_ancestor_verdict(ancestors@[k]),
    {
        verdicts.push(judge_ancestor(&ancestors[i]));
    }
    assert(verdicts@ =~= ancestors@.map_values(
        |facts: Result<UnixPathFacts, PlatformError>| unix_ancestor_verdict(facts),
    ));
    require_all(&verdicts)
}

// ---------------------------------------------------------------------------
// Windows
// ---------------------------------------------------------------------------

/// What was read of a program on Windows: whether it stands on a local drive and
/// is the running one, the checks of the program and of the directories above
/// it, in order, and whether it was still the running one after them.
#[derive(Debug)]
pub struct WindowsExecutableFacts {
    pub on_local_drive: bool,
    pub is_current: bool,
    pub checks: Vec<Result<(), PlatformError>>,
    pub is_still_current: bool,
}

/// What the facts on a program say about starting it with authority.
pub open spec fn windows_executable_verdict(facts: WindowsExecutableFacts) -> Result<
    (),
    PlatformError,
> {
    if !facts.on_local_drive {
        Err(error::denied("setup authorization executable must use a local drive path"))
    } else if !facts.is_current {
        Err(error::denied("setup authorization executable is not the current binary"))
    } else if error::first_refusal(facts.checks@) is Err {
        error::first_refusal(facts.checks@)
    } else if !facts.is_still_current {
        Err(error::denied("setup authorization executable changed during verification"))
    } else {
        Ok(())
    }
}

/// Judges a program on Windows.
pub fn verify_windows_authorization_executable(facts: &WindowsExecutableFacts) -> (result: Result<
    (),
    PlatformError,
>)
    ensures
        result == windows_executable_verdict(*facts),
{
    if !facts.on_local_drive {
        return Err(permission_denied("setup authorization executable must use a local drive path"));
    }
    if !facts.is_current {
        return Err(permission_denied("setup authorization executable is not the current binary"));
    }
    match require_all(&facts.checks) {
        Ok(()) => {},
        Err(refusal) => {
            return Err(refusal);
        },
    }
    if !facts.is_still_current {
        return Err(
            permission_denied("setup authorization executable changed during verification"),
        );
    }
    Ok(())
}

/// The status of a user who declined.
pub const ERROR_CANCELLED: i32 = 1223;

/// The smallest value of a process handle that is no status.
pub const FIRST_PROCESS_HANDLE: usize = 33;

/// The events of starting a program with authority, in order.
#[derive(Clone, Copy, Debug, PartialEq, Eq)]
pub enum LaunchEvent {
    /// The program's file is not the one that was verified.
    IdentityChanged,
    /// The program was not started.
    NotStarted { failure: PlatformError },
    /// The program was started, and this is its handle.
    Started { process: usize },
    /// The program could not be waited for, or its exit status not be read.
    Lost { failure: PlatformError },
    /// The program ended.
    Exited { code: u32 },
}

/// What an event means: an exit status, a failure, or that the end is awaited.
pub open spec fn launch_outcome(event: LaunchEvent) -> Result<Option<u32>, PlatformError> {
    match event {
        LaunchEvent::IdentityChanged => Err(
            error::denied("setup authorization executable identity changed before launch"),
        ),
        LaunchEvent::NotStarted { failure } => Err(
            if error::native_code(failure) == Some(ERROR_CANCELLED) {
                error::denied("native Windows setup authorization was declined")
            } else {
                failure
            },
        ),
        LaunchEvent::Started { process } => if process < FIRST_PROCESS_HANDLE {
            Err(error::denied("native Windows authorization did not return a child process"))
        } else {
            Ok(None)
        },
        LaunchEvent::Lost { failure } => Err(failure),
        LaunchEvent::Exited { code } => Ok(Some(code)),
    }
}

/// Judges an event of starting a program with authority.
pub fn invoke_setup_authorization(event: LaunchEvent) -> (result: Result<
    Option<u32>,
    PlatformError,
>)
    ensures
        result == launch_outcome(event),
{
    match event {
        LaunchEvent::IdentityChanged => Err(
            permission_denied("setup authorization executable identity changed before launch"),
        ),
        LaunchEvent::NotStarted { failure } => match failure.raw_os_error() {
            Some(code) => if code == ERROR_CANCELLED {
                Err(permission_denied("native Windows setup authorization was declined"))
            } else {
                Err(failure)
            },
            None => Err(failure),
        },
        LaunchEvent::Started { process } => if process < FIRST_PROCESS_HANDLE {
            Err(permission_denied("native Windows authorization did not return a child process"))
        } else {
            Ok(None)
        },
        LaunchEvent::Lost { failure } => Err(failure),
        LaunchEvent::Exited { code } => Ok(Some(code)),
    }
}

/// The status of a thread whose apartment is of another kind.
pub const RPC_E_CHANGED_MODE: i32 = -2147417850;

/// Whether the shell's library was initialized by this call, and so is to be
/// released, or was before.
pub fn initialize_com_for_shell(status: i32) -> (result: Result<bool, PlatformError>)
    ensures
        result == if status >= 0 {
            Ok(true)
        } else if status == RPC_E_CHANGED_MODE {
            Ok(false)
        } else {
            Err(
                PlatformError::Policy {
                    kind: ErrorKind::Other,
                    message: "Windows could not initialize COM for native setup authorization",
                },
            )
        },
{
    if status >= 0 {
        Ok(true)
    } else if status == RPC_E_CHANGED_MODE {
        Ok(false)
    } else {
        Err(
            PlatformError::Policy {
                kind: ErrorKind::Other,
                message: "Windows could not initialize COM for native setup authorization",
            },
        )
    }
}

// ---------------------------------------------------------------------------
// User work
// ---------------------------------------------------------------------------

/// The most bytes of a request for user work.
pub const MAX_USER_PHASE_BYTES: usize = 64 * 1024;

/// Why user work is not run.
#[derive(Debug)]
pub struct UserPhaseRefusal {
    pub kind: ErrorKind,
    pub message: String,
}

/// Refuses user work: a request that is too large for its size, and any other
/// because nothing runs it.
pub fn run_user_phase(principal: &WorkerPrincipal, request: &[u8]) -> (refusal: UserPhaseRefusal)
    ensures
        if request@.len() > MAX_USER_PHASE_BYTES {
            &&& refusal.kind == ErrorKind::InvalidData
            &&& refusal.message@ == "setup user-phase request is too large"@
        } else {
            &&& refusal.kind == ErrorKind::Unsupported
            &&& refusal.message@ == "native Windows user execution for "@ + principal@.name
                + " is not implemented"@
        },
{
    if request.len() > MAX_USER_PHASE_BYTES {
        return UserPhaseRefusal {
            kind: ErrorKind::InvalidData,
            message: "setup user-phase request is too large".to_owned(),
        };
    }
    UserPhaseRefusal {
        kind: ErrorKind::Unsupported,
        message: "native Windows user execution for ".to_owned().concat(principal.name()).concat(
            " is not implemented",
        ),
    }
}

} // verus!
