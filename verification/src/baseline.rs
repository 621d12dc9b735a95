//! What is asked about a machine before it is set up, and what the answers mean.

use crate::authorized_keys;
use crate::authorized_keys::{authorized_keys_are_ready, KeyDirectoryFacts, KeyFileFacts};
use crate::error::{ErrorKind, PlatformError};
use crate::layout::WorkerPath;
use crate::probe_text;
use crate::probe_text::{
    parse_git_version, parse_service_auto_start, parse_sleep_posture, parse_sshd_service_running,
    version_is_reportable,
};
use crate::sshd_config;
use crate::sshd_config::{parse_effective_sshd_config, BASELINE_OUTPUT_LIMIT};
use crate::text;
use crate::text::{chars_of, same_text, string_of};
use vstd::prelude::*;

verus! {

// ---------------------------------------------------------------------------
// Commands
// ---------------------------------------------------------------------------

/// How long a command may run, in milliseconds.
pub const BASELINE_COMMAND_TIMEOUT_MILLIS: u64 = 2000;

/// What a command printed, and whether it succeeded.
#[derive(Debug)]
pub struct BaselineCommandOutput {
    pub success: bool,
    pub stdout: Vec<u8>,
}

/// Why a command told nothing.
#[derive(Clone, Copy, Debug, PartialEq, Eq, Structural)]
pub enum BaselineCommandFailure {
    NotFound,
    TimedOut,
    OutputTooLarge,
    Failed,
}

/// What a command printed, where it is not too much. At most one byte more than
/// the limit is read.
pub open spec fn bounded(read: Result<Vec<u8>, PlatformError>) -> Result<
    Vec<u8>,
    BaselineCommandFailure,
> {
    match read {
        Err(_) => Err(BaselineCommandFailure::Failed),
        Ok(bytes) => if bytes@.len() > BASELINE_OUTPUT_LIMIT {
            Err(BaselineCommandFailure::OutputTooLarge)
        } else {
            Ok(bytes)
        },
    }
}

/// Judges what was read of a command's output.
pub fn read_bounded(read: Result<Vec<u8>, PlatformError>) -> (result: Result<
    Vec<u8>,
    BaselineCommandFailure,
>)
    ensures
        result == bounded(read),
{
    match read {
        Err(_) => Err(BaselineCommandFailure::Failed),
        Ok(bytes) => {
            if bytes.len() > BASELINE_OUTPUT_LIMIT {
                Err(BaselineCommandFailure::OutputTooLarge)
            } else {
                Ok(bytes)
            }
        },
    }
}

/// The environment of a command: its locale is fixed, and nothing else of the
/// caller's is kept.
pub open spec fn command_environment(extra: Seq<(Seq<char>, Seq<char>)>) -> Seq<
    (Seq<char>, Seq<char>),
> {
    seq![("LANG"@, "C"@), ("LC_ALL"@, "C"@)] + extra
}

/// What pairs of texts are.
pub open spec fn pair_texts(pairs: Seq<(String, String)>) -> Seq<(Seq<char>, Seq<char>)> {
    pairs.map_values(|pair: (String, String)| (pair.0@, pair.1@))
}

/// Sets up the environment of a command.
pub fn baseline_command_environment(extra: Vec<(String, String)>) -> (environment: Vec<
    (String, String),
>)
    ensures
        pair_texts(environment@) == command_environment(pair_texts(extra@)),
{
    let mut environment: Vec<(String, String)> = Vec::new();
    environment.push(("LANG".to_owned(), "C".to_owned()));
    environment.push(("LC_ALL".to_owned(), "C".to_owned()));
    let mut rest = extra;
    environment.append(&mut rest);
    assert(pair_texts(environment@) =~= command_environment(pair_texts(extra@)));
    environment
}

/// What a look at a running command says.
#[derive(Clone, Copy, Debug, PartialEq, Eq, Structural)]
pub enum CommandPoll {
    Exited { success: bool },
    Running { elapsed_millis: u64 },
    Failed,
}

/// What a reader of a command's output came to: what it read, or nothing where
/// it did not come to an end.
pub type Drained = Option<Result<Vec<u8>, PlatformError>>;

/// What is done next about a command.
#[derive(Debug)]
pub enum CommandStep {
    /// Look at it again after a while.
    Sleep,
    /// Stop it, wait for it, and wait for its readers.
    Stop,
    /// Wait for its readers.
    Collect { success: bool },
}

/// What is done about a command that was looked at.
pub open spec fn polled(poll: CommandPoll, timeout_millis: u64) -> CommandStep {
    match poll {
        CommandPoll::Exited { success } => CommandStep::Collect { success },
        CommandPoll::Running { elapsed_millis } => if elapsed_millis < timeout_millis {
            CommandStep::Sleep
        } else {
            CommandStep::Stop
        },
        CommandPoll::Failed => CommandStep::Stop,
    }
}

/// Decides what is done about a command that was looked at.
pub fn poll_baseline_command(poll: CommandPoll, timeout_millis: u64) -> (step: CommandStep)
    ensures
        step == polled(poll, timeout_millis),
{
    match poll {
        CommandPoll::Exited { success } => CommandStep::Collect { success },
        CommandPoll::Running { elapsed_millis } => {
            if elapsed_millis < timeout_millis {
                CommandStep::Sleep
            } else {
                CommandStep::Stop
            }
        },
        CommandPoll::Failed => CommandStep::Stop,
    }
}

/// How a command ended: it could not be started, had no output, was looked at
/// for the last time, was waited for after it was stopped, and what its readers
/// came to.
#[derive(Debug)]
pub struct CommandRun {
    pub spawned: Result<(), PlatformError>,
    pub has_output: bool,
    pub poll: CommandPoll,
    pub stopped: Result<(), PlatformError>,
    pub stdout: Drained,
    pub stderr: Drained,
}

/// What a command comes to.
pub open spec fn command_result(run: CommandRun) -> Result<
    BaselineCommandOutput,
    BaselineCommandFailure,
> {
    match run.spawned {
        Err(failure) => if failure.spec_kind() == ErrorKind::NotFound {
            Err(BaselineCommandFailure::NotFound)
        } else {
            Err(BaselineCommandFailure::Failed)
        },
        Ok(()) => if !run.has_output {
            Err(BaselineCommandFailure::Failed)
        } else {
            match run.poll {
                CommandPoll::Failed => Err(BaselineCommandFailure::Failed),
                CommandPoll::Running { .. } => if run.stopped is Ok {
                    Err(BaselineCommandFailure::TimedOut)
                } else {
                    Err(BaselineCommandFailure::Failed)
                },
                CommandPoll::Exited { success } => match run.stdout {
                    None => Err(BaselineCommandFailure::Failed),
                    Some(read) => match bounded(read) {
                        Err(failure) => Err(failure),
                        Ok(stdout) => match run.stderr {
                            None => Err(BaselineCommandFailure::Failed),
                            Some(read) => match bounded(read) {
                                Err(failure) => Err(failure),
                                Ok(_) => Ok(BaselineCommandOutput { success, stdout }),
                            },
                        },
                    },
                },
            }
        },
    }
}

/// Settles a command that ended.
pub fn run_baseline_readonly_command(run: CommandRun) -> (result: Result<
    BaselineCommandOutput,
    BaselineCommandFailure,
>)
    ensures
        result == command_result(run),
{
    match run.spawned {
        Ok(()) => {},
        Err(failure) => {
            return match failure.kind() {
                ErrorKind::NotFound => Err(BaselineCommandFailure::NotFound),
                _ => Err(BaselineCommandFailure::Failed),
            };
        },
    }
    if !run.has_output {
        return Err(BaselineCommandFailure::Failed);
    }
    let success = match run.poll {
        CommandPoll::Failed => {
            return Err(BaselineCommandFailure::Failed);
        },
        CommandPoll::Running { elapsed_millis: _ } => {
            return match run.stopped {
                Ok(()) => Err(BaselineCommandFailure::TimedOut),
                Err(_) => Err(BaselineCommandFailure::Failed),
            };
        },
        CommandPoll::Exited { success } => success,
    };
    let stdout = match run.stdout {
        None => {
            return Err(BaselineCommandFailure::Failed);
        },
        Some(read) => match read_bounded(read) {
            Ok(stdout) => stdout,
            Err(failure) => {
                return Err(failure);
            },
        },
    };
    match run.stderr {
        None => Err(BaselineCommandFailure::Failed),
        Some(read) => match read_bounded(read) {
            Ok(_) => Ok(BaselineCommandOutput { success, stdout }),
            Err(failure) => Err(failure),
        },
    }
}

/// A look at a command with the usual time limit.
pub fn run_fixed_baseline_command(poll: CommandPoll) -> (step: CommandStep)
    ensures
        step == polled(poll, BASELINE_COMMAND_TIMEOUT_MILLIS),
{
    poll_baseline_command(poll, BASELINE_COMMAND_TIMEOUT_MILLIS)
}

// ---------------------------------------------------------------------------
// Snapshots
// ---------------------------------------------------------------------------

/// How Tailscale runs.
#[derive(Clone, Copy, Debug, PartialEq, Eq, Structural)]
pub enum BaselineTailscaleMode {
    Gui,
    Tailscaled,
    Service,
}

/// How Tailscale was found to run.
#[derive(Clone, Copy, Debug, PartialEq, Eq, Structural)]
pub struct BaselineTailscalePosture {
    pub mode: BaselineTailscaleMode,
    pub persistent: bool,
    pub unattended: bool,
}

/// What a probe found.
#[derive(Clone, Debug, PartialEq, Eq)]
pub enum BaselineProbeSnapshot {
    Absent,
    Present { version: Option<String>, healthy: bool },
    TailscalePresent {
        version: Option<String>,
        healthy: bool,
        posture: BaselineTailscalePosture,
    },
    Broken,
    Unknowable,
}

/// What a probe found.
pub enum SnapshotModel {
    Absent,
    Present { version: Option<Seq<char>>, healthy: bool },
    TailscalePresent {
        version: Option<Seq<char>>,
        healthy: bool,
        posture: BaselineTailscalePosture,
    },
    Broken,
    Unknowable,
}

impl View for BaselineProbeSnapshot {
    type V = SnapshotModel;

    open spec fn view(&self) -> SnapshotModel {
        match *self {
            BaselineProbeSnapshot::Absent => SnapshotModel::Absent,
            BaselineProbeSnapshot::Present { version, healthy } => SnapshotModel::Present {
                version: text::optional_text(version),
                healthy,
            },
            BaselineProbeSnapshot::TailscalePresent { version, healthy, posture } =>
                SnapshotModel::TailscalePresent {
                version: text::optional_text(version),
                healthy,
                posture,
            },
            BaselineProbeSnapshot::Broken => SnapshotModel::Broken,
            BaselineProbeSnapshot::Unknowable => SnapshotModel::Unknowable,
        }
    }
}

/// What a command printed, where it ran and succeeded.
pub open spec fn successful(result: Result<BaselineCommandOutput, BaselineCommandFailure>) -> Option<
    Seq<u8>,
> {
    match result {
        Ok(output) if output.success => Some(output.stdout@),
        _ => None,
    }
}

fn success_of(result: &Result<BaselineCommandOutput, BaselineCommandFailure>) -> (output: Option<
    &[u8],
>)
    ensures
        match output {
            Some(output) => successful(*result) == Some(output@),
            None => successful(*result) is None,
        },
{
    match result {
        Ok(output) => {
            if output.success {
                Some(output.stdout.as_slice())
            } else {
                None
            }
        },
        Err(_) => None,
    }
}

// ---------------------------------------------------------------------------
// Tailscale
// ---------------------------------------------------------------------------

/// A value in a JSON document, of which only a text or a truth value is kept.
#[derive(Debug)]
pub enum JsonScalar {
    Null,
    Truth(bool),
    Number,
    Text(String),
    Array,
    Object,
}

/// A value in a JSON document.
pub enum ScalarModel {
    Null,
    Truth(bool),
    Number,
    Text(Seq<char>),
    Array,
    Object,
}

/// What an optional value is.
pub open spec fn scalar_model(scalar: Option<JsonScalar>) -> Option<ScalarModel> {
    match scalar {
        None => None,
        Some(JsonScalar::Null) => Some(ScalarModel::Null),
        Some(JsonScalar::Truth(truth)) => Some(ScalarModel::Truth(truth)),
        Some(JsonScalar::Number) => Some(ScalarModel::Number),
        Some(JsonScalar::Text(text)) => Some(ScalarModel::Text(text@)),
        Some(JsonScalar::Array) => Some(ScalarModel::Array),
        Some(JsonScalar::Object) => Some(ScalarModel::Object),
    }
}

/// The documents of `serde_json`, of which nothing is known but what stands at
/// their places.
#[verifier::external_type_specification]
#[verifier::external_body]
pub struct ExternalDocument(serde_json::Value);

/// What stands at the places of a document, by the pointers to them.
pub uninterp spec fn places_of(document: serde_json::Value) -> Map<Seq<char>, ScalarModel>;

/// What stands at the places of the JSON document that bytes spell, where they
/// spell one.
pub uninterp spec fn json_places(bytes: Seq<u8>) -> Option<Map<Seq<char>, ScalarModel>>;

/// Calls `serde_json::from_slice`. The document that it reads has the places that
/// are named `json_places`; it reads none of bytes that are no JSON document.
#[verifier::external_body]
fn parse_document(bytes: &[u8]) -> (document: Option<serde_json::Value>)
    ensures
        match document {
            Some(read) => json_places(bytes@) == Some(places_of(read)),
            None => json_places(bytes@) is None,
        },
{
    serde_json::from_slice::<serde_json::Value>(bytes).ok()
}

/// Calls `serde_json::Value::pointer`, which finds what stands at a place, and
/// nothing where the document does not have the place.
#[verifier::external_body]
fn find_in_document(document: &serde_json::Value, pointer: &str) -> (found: Option<JsonScalar>)
    ensures
        scalar_model(found) == value_at(places_of(*document), pointer@),
{
    Some(match document.pointer(pointer)? {
        serde_json::Value::Null => JsonScalar::Null,
        serde_json::Value::Bool(truth) => JsonScalar::Truth(*truth),
        serde_json::Value::Number(_) => JsonScalar::Number,
        serde_json::Value::String(text) => JsonScalar::Text(text.clone()),
        serde_json::Value::Array(_) => JsonScalar::Array,
        serde_json::Value::Object(_) => JsonScalar::Object,
    })
}

/// What stands at a place, where there is such a place.
pub open spec fn value_at(
    places: Map<Seq<char>, ScalarModel>,
    pointer: Seq<char>,
) -> Option<ScalarModel> {
    if places.contains_key(pointer) {
        Some(places[pointer])
    } else {
        None
    }
}

/// What stands at a place of the JSON document that bytes spell, where they spell
/// one that has the place.
pub open spec fn json_at(bytes: Seq<u8>, pointer: Seq<char>) -> Option<ScalarModel> {
    match json_places(bytes) {
        Some(places) => value_at(places, pointer),
        None => None,
    }
}

/// The mode that is asked for, which may be left open.
pub open spec fn requested(mode: Seq<char>, default_mode: BaselineTailscaleMode) -> Option<
    BaselineTailscaleMode,
> {
    if mode == ""@ {
        Some(default_mode)
    } else if mode == "gui"@ {
        Some(BaselineTailscaleMode::Gui)
    } else if mode == "tailscaled"@ {
        Some(BaselineTailscaleMode::Tailscaled)
    } else if mode == "service"@ {
        Some(BaselineTailscaleMode::Service)
    } else {
        None
    }
}

fn read_mode(mode: &str, default_mode: BaselineTailscaleMode) -> (result: Option<
    BaselineTailscaleMode,
>)
    ensures
        result == requested(mode@, default_mode),
{
    if same_text(mode, "") {
        Some(default_mode)
    } else if same_text(mode, "gui") {
        Some(BaselineTailscaleMode::Gui)
    } else if same_text(mode, "tailscaled") {
        Some(BaselineTailscaleMode::Tailscaled)
    } else if same_text(mode, "service") {
        Some(BaselineTailscaleMode::Service)
    } else {
        None
    }
}

/// Whether Tailscale says that it runs and is online. Where it does not run, it
/// does not matter whether it is online.
pub open spec fn backend_healthy(state: Option<ScalarModel>, online: Option<ScalarModel>) -> Option<
    bool,
> {
    match state {
        Some(ScalarModel::Text(state)) => if state != "Running"@ {
            Some(false)
        } else {
            match online {
                Some(ScalarModel::Truth(online)) => Some(online),
                _ => None,
            }
        },
        _ => None,
    }
}

/// The version that may be reported.
pub open spec fn reported_version(version: Option<ScalarModel>) -> Option<Seq<char>> {
    match version {
        Some(ScalarModel::Text(version)) if probe_text::is_version(version, ".-+"@) => Some(version),
        _ => None,
    }
}

/// What Tailscale's status means: it is healthy if it runs and is online, stays
/// so, and runs in the mode that is asked for.
pub open spec fn status_snapshot(
    state: Option<ScalarModel>,
    online: Option<ScalarModel>,
    version: Option<ScalarModel>,
    posture: BaselineTailscalePosture,
    requested_mode: Seq<char>,
    default_mode: BaselineTailscaleMode,
) -> Option<SnapshotModel> {
    match backend_healthy(state, online) {
        None => None,
        Some(healthy) => match requested(requested_mode, default_mode) {
            None => None,
            Some(wanted) => Some(
                SnapshotModel::TailscalePresent {
                    version: reported_version(version),
                    healthy: healthy && posture.persistent && wanted == posture.mode,
                    posture,
                },
            ),
        },
    }
}

/// What an optional snapshot is.
pub open spec fn optional_snapshot(snapshot: Option<BaselineProbeSnapshot>) -> Option<
    SnapshotModel,
> {
    match snapshot {
        Some(snapshot) => Some(snapshot@),
        None => None,
    }
}

/// Judges the values of Tailscale's status.
pub fn judge_tailscale_status(
    state: Option<JsonScalar>,
    online: Option<JsonScalar>,
    version: Option<JsonScalar>,
    posture: BaselineTailscalePosture,
    requested_mode: &str,
    default_mode: BaselineTailscaleMode,
) -> (snapshot: Option<BaselineProbeSnapshot>)
    ensures
        optional_snapshot(snapshot) == status_snapshot(
            scalar_model(state),
            scalar_model(online),
            scalar_model(version),
            posture,
            requested_mode@,
            default_mode,
        ),
{
    let healthy = match &state {
        Some(JsonScalar::Text(state)) => {
            if !same_text(state.as_str(), "Running") {
                false
            } else {
                match online {
                    Some(JsonScalar::Truth(online)) => online,
                    _ => {
                        return None;
                    },
                }
            }
        },
        _ => {
            return None;
        },
    };
    let wanted = match read_mode(requested_mode, default_mode) {
        Some(wanted) => wanted,
        None => {
            return None;
        },
    };
    let reported: Option<String> = match version {
        Some(JsonScalar::Text(version)) => {
            let chars = chars_of(version.as_str());
            if version_is_reportable(&chars, ".-+") {
                Some(version)
            } else {
                None
            }
        },
        _ => None,
    };
    Some(
        BaselineProbeSnapshot::TailscalePresent {
            version: reported,
            healthy: healthy && posture.persistent && wanted == posture.mode,
            posture,
        },
    )
}

/// Reads what `tailscale status --json` prints.
pub fn tailscale_status_snapshot(
    bytes: &[u8],
    mode: BaselineTailscaleMode,
    persistent: bool,
    unattended: bool,
    requested_mode: &str,
    default_mode: BaselineTailscaleMode,
) -> (snapshot: Option<BaselineProbeSnapshot>)
    ensures
        optional_snapshot(snapshot) == status_snapshot(
            json_at(bytes@, "/BackendState"@),
            json_at(bytes@, "/Self/Online"@),
            json_at(bytes@, "/Version"@),
            BaselineTailscalePosture { mode, persistent, unattended },
            requested_mode@,
            default_mode,
        ),
{
    let document = match parse_document(bytes) {
        Some(document) => document,
        None => {
            return None;
        },
    };
    let state = find_in_document(&document, "/BackendState");
    let online = find_in_document(&document, "/Self/Online");
    let version = find_in_document(&document, "/Version");
    judge_tailscale_status(
        state,
        online,
        version,
        BaselineTailscalePosture { mode, persistent, unattended },
        requested_mode,
        default_mode,
    )
}

/// Reads what Tailscale's service prints.
pub fn parse_tailscale_status(
    bytes: &[u8],
    persistent: bool,
    unattended: bool,
    requested_mode: &str,
) -> (snapshot: Option<BaselineProbeSnapshot>)
    ensures
        optional_snapshot(snapshot) == status_snapshot(
            json_at(bytes@, "/BackendState"@),
            json_at(bytes@, "/Self/Online"@),
            json_at(bytes@, "/Version"@),
            BaselineTailscalePosture {
                mode: BaselineTailscaleMode::Service,
                persistent,
                unattended,
            },
            requested_mode@,
            BaselineTailscaleMode::Service,
        ),
{
    tailscale_status_snapshot(
        bytes,
        BaselineTailscaleMode::Service,
        persistent,
        unattended,
        requested_mode,
        BaselineTailscaleMode::Service,
    )
}

/// What was found out of Tailscale: whether its program is there, whether the
/// system's directory is known, what its service and its start are said to be,
/// whether it runs unattended, and its status.
#[derive(Debug)]
pub struct TailscaleFacts {
    pub program_is_file: bool,
    pub system_known: bool,
    pub service: Result<BaselineCommandOutput, BaselineCommandFailure>,
    pub start: Result<BaselineCommandOutput, BaselineCommandFailure>,
    pub unattended: bool,
    pub status: Result<BaselineCommandOutput, BaselineCommandFailure>,
}

/// Whether Tailscale is said to run now, and after the next start.
pub open spec fn stays_running(facts: TailscaleFacts) -> bool {
    &&& successful(facts.service) matches Some(output) && probe_text::service_running(output)
        == Some(true)
    &&& successful(facts.start) matches Some(output) && probe_text::service_auto_start(output)
        == Some(true)
}

/// What the probe of Tailscale finds.
pub open spec fn tailscale_found(facts: TailscaleFacts, requested_mode: Seq<char>) -> SnapshotModel {
    if !facts.program_is_file {
        SnapshotModel::Absent
    } else if !facts.system_known {
        SnapshotModel::Unknowable
    } else {
        match successful(facts.status) {
            None => SnapshotModel::Unknowable,
            Some(bytes) => match status_snapshot(
                json_at(bytes, "/BackendState"@),
                json_at(bytes, "/Self/Online"@),
                json_at(bytes, "/Version"@),
                BaselineTailscalePosture {
                    mode: BaselineTailscaleMode::Service,
                    persistent: stays_running(facts),
                    unattended: facts.unattended,
                },
                requested_mode,
                BaselineTailscaleMode::Service,
            ) {
                Some(snapshot) => snapshot,
                None => SnapshotModel::Unknowable,
            },
        }
    }
}

/// Judges what was found out of Tailscale.
pub fn tailscale_snapshot(facts: &TailscaleFacts, requested_mode: &str) -> (snapshot:
    BaselineProbeSnapshot)
    ensures
        snapshot@ == tailscale_found(*facts, requested_mode@),
{
    if !facts.program_is_file {
        return BaselineProbeSnapshot::Absent;
    }
    if !facts.system_known {
        return BaselineProbeSnapshot::Unknowable;
    }
    let running = match success_of(&facts.service) {
        Some(output) => match parse_sshd_service_running(output) {
            Some(running) => running,
            None => false,
        },
        None => false,
    };
    let automatic = match success_of(&facts.start) {
        Some(output) => match parse_service_auto_start(output) {
            Some(automatic) => automatic,
            None => false,
        },
        None => false,
    };
    match success_of(&facts.status) {
        None => BaselineProbeSnapshot::Unknowable,
        Some(output) => match parse_tailscale_status(
            output,
            running && automatic,
            facts.unattended,
            requested_mode,
        ) {
            Some(snapshot) => snapshot,
            None => BaselineProbeSnapshot::Unknowable,
        },
    }
}

// ---------------------------------------------------------------------------
// Git
// ---------------------------------------------------------------------------

/// Which of the places of Git's program is used: the first one that is there.
pub fn git_program(first_is_file: bool, second_is_file: bool) -> (program: Option<&'static str>)
    ensures
        match program {
            Some(program) => if first_is_file {
                program@ == "C:\\Program Files\\Git\\cmd\\git.exe"@
            } else {
                second_is_file && program@
                    == "C:\\Program Files (x86)\\Git\\cmd\\git.exe"@
            },
            None => !first_is_file && !second_is_file,
        },
{
    if first_is_file {
        Some("C:\\Program Files\\Git\\cmd\\git.exe")
    } else if second_is_file {
        Some("C:\\Program Files (x86)\\Git\\cmd\\git.exe")
    } else {
        None
    }
}

/// What was found out of Git: whether its program is there, and its version.
#[derive(Debug)]
pub struct GitFacts {
    pub program_found: bool,
    pub version: Result<BaselineCommandOutput, BaselineCommandFailure>,
}

/// What the probe of Git finds.
pub open spec fn git_found(facts: GitFacts) -> SnapshotModel {
    if !facts.program_found {
        SnapshotModel::Absent
    } else {
        match facts.version {
            Err(_) => SnapshotModel::Unknowable,
            Ok(output) => if !output.success {
                SnapshotModel::Broken
            } else {
                match probe_text::git_version(output.stdout@) {
                    Some(version) => SnapshotModel::Present {
                        version: Some(version),
                        healthy: true,
                    },
                    None => SnapshotModel::Unknowable,
                }
            },
        }
    }
}

/// Judges what was found out of Git.
pub fn git_snapshot(facts: &GitFacts) -> (snapshot: BaselineProbeSnapshot)
    ensures
        snapshot@ == git_found(*facts),
{
    if !facts.program_found {
        return BaselineProbeSnapshot::Absent;
    }
    match &facts.version {
        Err(_) => BaselineProbeSnapshot::Unknowable,
        Ok(output) => {
            if !output.success {
                return BaselineProbeSnapshot::Broken;
            }
            match parse_git_version(&output.stdout) {
                Some(version) => BaselineProbeSnapshot::Present {
                    version: Some(version),
                    healthy: true,
                },
                None => BaselineProbeSnapshot::Unknowable,
            }
        },
    }
}

// ---------------------------------------------------------------------------
// Sleep
// ---------------------------------------------------------------------------

/// What was found out of the machine's sleep: whether the system's directory is
/// known, and what the power settings are said to be.
#[derive(Debug)]
pub struct SleepFacts {
    pub system_known: bool,
    pub settings: Result<BaselineCommandOutput, BaselineCommandFailure>,
}

/// What the probe of the machine's sleep finds.
pub open spec fn sleep_found(facts: SleepFacts) -> SnapshotModel {
    if !facts.system_known {
        SnapshotModel::Unknowable
    } else {
        match successful(facts.settings) {
            None => SnapshotModel::Unknowable,
            Some(output) => match probe_text::never_sleeps(output) {
                Some(healthy) => SnapshotModel::Present { version: None, healthy },
                None => SnapshotModel::Unknowable,
            },
        }
    }
}

/// Judges what was found out of the machine's sleep.
pub fn sleep_snapshot(facts: &SleepFacts) -> (snapshot: BaselineProbeSnapshot)
    ensures
        snapshot@ == sleep_found(*facts),
{
    if !facts.system_known {
        return BaselineProbeSnapshot::Unknowable;
    }
    match success_of(&facts.settings) {
        None => BaselineProbeSnapshot::Unknowable,
        Some(output) => match parse_sleep_posture(output) {
            Some(healthy) => BaselineProbeSnapshot::Present { version: None, healthy },
            None => BaselineProbeSnapshot::Unknowable,
        },
    }
}

// ---------------------------------------------------------------------------
// The SSH server
// ---------------------------------------------------------------------------

/// Whom the server is asked about: the user, from the machine itself.
pub fn ssh_match_context(user: &str) -> (context: String)
    ensures
        context@ == "user="@ + user@ + ",host=localhost,addr=127.0.0.1"@,
{
    let mut chars = chars_of("user=");
    let mut name = chars_of(user);
    chars.append(&mut name);
    let mut rest = chars_of(",host=localhost,addr=127.0.0.1");
    chars.append(&mut rest);
    string_of(&chars)
}

/// What was found out of the SSH server: whether the system's directory is known,
/// whether the server's program is there, what its service is said to be, whether
/// the current user is known, what the server says that it does, the user's
/// profile, the directory of the user's keys, and what was found out of the
/// configured files of keys, in their order.
#[derive(Debug)]
pub struct SshServerFacts {
    pub system_known: bool,
    pub program_is_file: bool,
    pub service: Result<BaselineCommandOutput, BaselineCommandFailure>,
    pub user_known: bool,
    pub configuration: Result<BaselineCommandOutput, BaselineCommandFailure>,
    pub profile: Option<WorkerPath>,
    pub key_directory: KeyDirectoryFacts,
    pub key_files: Vec<KeyFileFacts>,
}

/// What the probe of the SSH server finds: it is healthy if it runs, accepts
/// keys, and the user's keys let the controller in.
pub open spec fn ssh_found(facts: SshServerFacts, required: Seq<Seq<char>>) -> SnapshotModel {
    if !facts.system_known {
        SnapshotModel::Unknowable
    } else if !facts.program_is_file {
        SnapshotModel::Absent
    } else {
        match facts.service {
            Err(_) => SnapshotModel::Unknowable,
            Ok(output) => match probe_text::service_running(output.stdout@) {
                None => SnapshotModel::Unknowable,
                Some(running) => if !facts.user_known {
                    SnapshotModel::Unknowable
                } else {
                    match successful(facts.configuration) {
                        None => SnapshotModel::Unknowable,
                        Some(output) => match sshd_config::effective_config(output) {
                            None => SnapshotModel::Unknowable,
                            Some((accepts_keys, configured)) => match facts.profile {
                                None => SnapshotModel::Unknowable,
                                Some(profile) => SnapshotModel::Present {
                                    version: None,
                                    healthy: running && accepts_keys && authorized_keys::keys_ready(
                                        profile@,
                                        facts.key_directory,
                                        configured,
                                        facts.key_files@,
                                        required,
                                    ),
                                },
                            },
                        },
                    }
                },
            },
        }
    }
}

/// Judges what was found out of the SSH server.
pub fn ssh_server_snapshot(facts: &SshServerFacts, required: &[String]) -> (snapshot:
    BaselineProbeSnapshot)
    ensures
        snapshot@ == ssh_found(*facts, text::string_views(required@)),
{
    if !facts.system_known {
        return BaselineProbeSnapshot::Unknowable;
    }
    if !facts.program_is_file {
        return BaselineProbeSnapshot::Absent;
    }
    let running = match &facts.service {
        Err(_) => {
            return BaselineProbeSnapshot::Unknowable;
        },
        Ok(output) => match parse_sshd_service_running(&output.stdout) {
            Some(running) => running,
            None => {
                return BaselineProbeSnapshot::Unknowable;
            },
        },
    };
    if !facts.user_known {
        return BaselineProbeSnapshot::Unknowable;
    }
    let config = match success_of(&facts.configuration) {
        None => {
            return BaselineProbeSnapshot::Unknowable;
        },
        Some(output) => match parse_effective_sshd_config(output) {
            Some(config) => config,
            None => {
                return BaselineProbeSnapshot::Unknowable;
            },
        },
    };
    match &facts.profile {
        None => BaselineProbeSnapshot::Unknowable,
        Some(profile) => {
            let ready = authorized_keys_are_ready(
                profile,
                &facts.key_directory,
                config.authorized_keys_files(),
                &facts.key_files,
                required,
            );
            BaselineProbeSnapshot::Present {
                version: None,
                healthy: running && config.public_key_authentication() && ready,
            }
        },
    }
}

// ---------------------------------------------------------------------------
// All probes
// ---------------------------------------------------------------------------

/// A probe, and what was found out for it.
#[derive(Debug)]
pub enum BaselineProbe {
    SshServer(SshServerFacts),
    Tailscale(TailscaleFacts),
    Git(GitFacts),
    SleepPolicy(SleepFacts),
    Styrnd,
    Deferred,
}

/// What a probe finds.
pub open spec fn probed(
    probe: BaselineProbe,
    authorized_public_keys: Seq<Seq<char>>,
    tailscale_mode: Seq<char>,
) -> SnapshotModel {
    match probe {
        BaselineProbe::SshServer(facts) => ssh_found(facts, authorized_public_keys),
        BaselineProbe::Tailscale(facts) => tailscale_found(facts, tailscale_mode),
        BaselineProbe::Git(facts) => git_found(facts),
        BaselineProbe::SleepPolicy(facts) => sleep_found(facts),
        BaselineProbe::Styrnd => SnapshotModel::Absent,
        BaselineProbe::Deferred => SnapshotModel::Unknowable,
    }
}

/// Judges what was found out for a probe.
pub fn baseline_probe_snapshot(
    probe: &BaselineProbe,
    authorized_public_keys: &[String],
    tailscale_mode: &str,
) -> (snapshot: BaselineProbeSnapshot)
    ensures
        snapshot@ == probed(*probe, text::string_views(authorized_public_keys@), tailscale_mode@),
{
    match probe {
        BaselineProbe::SshServer(facts) => ssh_server_snapshot(facts, authorized_public_keys),
        BaselineProbe::Tailscale(facts) => tailscale_snapshot(facts, tailscale_mode),
        BaselineProbe::Git(facts) => git_snapshot(facts),
        BaselineProbe::SleepPolicy(facts) => sleep_snapshot(facts),
        BaselineProbe::Styrnd => BaselineProbeSnapshot::Absent,
        BaselineProbe::Deferred => BaselineProbeSnapshot::Unknowable,
    }
}

/// Nothing that a tool prints gets past a probe but a version, and that is short
/// and made of letters, digits and a few signs.
pub proof fn probes_pass_on_versions_only(
    probe: BaselineProbe,
    authorized_public_keys: Seq<Seq<char>>,
    tailscale_mode: Seq<char>,
)
    ensures
        match probed(probe, authorized_public_keys, tailscale_mode) {
            SnapshotModel::Present { version: Some(version), .. } => probe_text::is_version(
                version,
                ".-+()"@,
            ),
            SnapshotModel::TailscalePresent { version: Some(version), .. } =>
                probe_text::is_version(version, ".-+"@),
            _ => true,
        },
{
}

/// Tailscale is never called healthy unless it stays running over a restart.
pub proof fn healthy_tailscale_stays_running(facts: TailscaleFacts, requested_mode: Seq<char>)
    ensures
        tailscale_found(facts, requested_mode) matches SnapshotModel::TailscalePresent {
            healthy,
            posture,
            ..
        } ==> (healthy ==> stays_running(facts)) && posture.persistent == stays_running(facts),
{
}

} // verus!
