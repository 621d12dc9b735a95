//! What a machine reports about its resources, and what a controller accepts of
//! such a report.

use crate::secret;
use crate::secret::ask;
use crate::text;
use crate::text::{
    chars_of, contains_control, len_in_bytes, optional_is, same_bytes, same_text,
};
use vstd::prelude::*;

verus! {

/// The processors of a machine.
#[derive(Clone, Copy, Debug, PartialEq, Eq, Structural)]
pub struct CpuStatus {
    pub logical: u64,
    /// The load is a finite percentage from zero to a hundred.
    pub load_in_range: bool,
}

/// The memory of a machine.
#[derive(Clone, Copy, Debug, PartialEq, Eq, Structural)]
pub struct MemoryStatus {
    pub total_bytes: u64,
    pub available_bytes: u64,
}

/// The disk that holds a machine's worker root.
#[derive(Clone, Debug, PartialEq, Eq)]
pub struct DiskStatus {
    pub root: String,
    pub free_bytes: u64,
}

/// The jobs on a machine.
#[derive(Clone, Copy, Debug, PartialEq, Eq, Structural)]
pub struct JobStatus {
    pub running: u64,
    pub heavy_running: u64,
}

/// What runs the jobs of a machine.
#[derive(Clone, Debug, PartialEq, Eq)]
pub struct SubstrateStatus {
    pub kind: Option<String>,
    pub state: String,
    pub session: Option<String>,
}

/// What a machine reports about its resources.
#[derive(Clone, Debug, PartialEq, Eq)]
pub struct MachineStatus {
    pub machine_id: u128,
    pub time: String,
    pub cpu: CpuStatus,
    pub memory: MemoryStatus,
    pub disk: DiskStatus,
    pub jobs: JobStatus,
    pub substrate: SubstrateStatus,
}

/// A report that is not available or not valid.
#[derive(Clone, Copy, Debug, PartialEq, Eq, Structural)]
pub struct StatusError;

impl StatusError {
    /// What the failure is reported with.
    pub fn message(&self) -> (message: &'static str)
        ensures
            message@ == "machine resource status is unavailable"@,
    {
        "machine resource status is unavailable"
    }
}

/// Whether `chrono::DateTime::parse_from_rfc3339` reads a time from a text.
pub uninterp spec fn rfc3339_time(text: Seq<char>) -> bool;

/// `chrono::DateTime::parse_from_rfc3339`, of which only success is kept.
#[verifier::external_body]
fn is_rfc3339_time(text: &str) -> (valid: bool)
    ensures
        valid == rfc3339_time(text@),
{
    chrono::DateTime::parse_from_rfc3339(text).is_ok()
}

/// A text that is not empty, has at most `limit` bytes and no control
/// character, and is not shaped like a secret.
pub open spec fn presentable<F: Fn(&str) -> bool>(
    secret: F,
    value: Seq<char>,
    limit: nat,
) -> bool {
    &&& value.len() > 0
    &&& text::byte_len(value) <= limit
    &&& !text::has_control(value)
    &&& !secret::detects(secret, value)
}

fn is_presentable<F: Fn(&str) -> bool>(value: &str, limit: usize, secret: &F) -> (holds: bool)
    requires
        secret::detector(*secret),
    ensures
        holds == presentable(*secret, value@, limit as nat),
{
    let chars = chars_of(value);
    chars.len() > 0 && len_in_bytes(value) <= limit && !contains_control(&chars) && !ask(
        secret,
        value,
    )
}

/// The substrates that a report may name: none, one that is registered, or one
/// that is active in a session.
pub open spec fn substrate_is_valid<F: Fn(&str) -> bool>(
    secret: F,
    status: SubstrateStatus,
) -> bool {
    &&& status.session matches Some(session) ==> presentable(secret, session@, 255)
    &&& if status.state@ == "none"@ {
        status.kind is None && status.session is None
    } else if status.state@ == "registered"@ {
        text::is_text(status.kind, "herdr"@)
    } else {
        status.state@ == "active"@ && text::is_text(status.kind, "herdr"@) && status.session is Some
    }
}

/// Whether a report may name this substrate.
pub fn valid_substrate_status<F: Fn(&str) -> bool>(status: &SubstrateStatus, secret: &F) -> (valid:
    bool)
    requires
        secret::detector(*secret),
    ensures
        valid == substrate_is_valid(*secret, *status),
{
    let valid_session = match &status.session {
        Some(session) => is_presentable(session.as_str(), 255, secret),
        None => true,
    };
    if !valid_session {
        return false;
    }
    if same_text(status.state.as_str(), "none") {
        status.kind.is_none() && status.session.is_none()
    } else if same_text(status.state.as_str(), "registered") {
        optional_is(&status.kind, "herdr")
    } else {
        same_text(status.state.as_str(), "active") && optional_is(&status.kind, "herdr")
            && status.session.is_some()
    }
}

/// The most bytes of a disk's root.
pub const MAX_DISK_ROOT_BYTES: usize = 32 * 1024;

/// The reports that a controller accepts of the machine that it asked, given
/// whether the report's time is one.
pub open spec fn acceptable_status<F: Fn(&str) -> bool>(
    secret: F,
    status: MachineStatus,
    expected_machine_id: u128,
    time_is_valid: bool,
) -> bool {
    &&& status.machine_id == expected_machine_id
    &&& time_is_valid && text::byte_len(status.time@) <= 64
    &&& status.cpu.logical != 0 && status.cpu.load_in_range
    &&& status.memory.total_bytes != 0
    &&& status.memory.available_bytes <= status.memory.total_bytes
    &&& presentable(secret, status.disk.root@, MAX_DISK_ROOT_BYTES as nat)
    &&& status.jobs.heavy_running <= status.jobs.running
    &&& substrate_is_valid(secret, status.substrate)
}

impl MachineStatus {
    /// Whether the report is acceptable, given whether its time is one.
    pub fn is_acceptable<F: Fn(&str) -> bool>(
        &self,
        expected_machine_id: u128,
        time_is_valid: bool,
        secret: &F,
    ) -> (acceptable: bool)
        requires
            secret::detector(*secret),
        ensures
            acceptable == acceptable_status(*secret, *self, expected_machine_id, time_is_valid),
    {
        self.machine_id == expected_machine_id && time_is_valid && len_in_bytes(self.time.as_str())
            <= 64 && self.cpu.logical != 0 && self.cpu.load_in_range && self.memory.total_bytes != 0
            && self.memory.available_bytes <= self.memory.total_bytes && is_presentable(
            self.disk.root.as_str(),
            MAX_DISK_ROOT_BYTES,
            secret,
        ) && self.jobs.heavy_running <= self.jobs.running && valid_substrate_status(
            &self.substrate,
            secret,
        )
    }

    /// Accepts the report of the machine that was asked.
    pub fn validate_for_client<F: Fn(&str) -> bool>(
        &self,
        expected_machine_id: u128,
        secret: &F,
    ) -> (result: Result<(), StatusError>)
        requires
            secret::detector(*secret),
        ensures
            result is Ok <==> acceptable_status(
                *secret,
                *self,
                expected_machine_id,
                rfc3339_time(self.time@),
            ),
    {
        let time_is_valid = is_rfc3339_time(self.time.as_str());
        if self.is_acceptable(expected_machine_id, time_is_valid, secret) {
            Ok(())
        } else {
            Err(StatusError)
        }
    }
}

// ---------------------------------------------------------------------------
// Capturing
// ---------------------------------------------------------------------------

/// A mounted file system: the components of the path that it is mounted on, and
/// the space left on it.
#[derive(Debug)]
pub struct Mount {
    pub components: Vec<Vec<u8>>,
    pub free_bytes: u64,
}

/// Whether a byte of a path's first component is the letter of a drive, as in
/// `C:` and in `\\?\C:`.
pub open spec fn is_drive_letter(first: Seq<u8>, at: int) -> bool {
    &&& at + 1 < first.len()
    &&& first[at + 1] == 0x3a
    &&& at == 0 || at == 4 && first[0] == 0x5c && first[1] == 0x5c && first[2] == 0x3f && first[3]
        == 0x5c
}

/// A path's first component, in which the letter of a drive is a capital.
pub open spec fn folded_drive(first: Seq<u8>) -> Seq<u8> {
    Seq::new(
        first.len(),
        |i: int|
            if is_drive_letter(first, i) && 0x61 <= first[i] <= 0x7a {
                (first[i] - 0x20) as u8
            } else {
                first[i]
            },
    )
}

/// A path in which the letter of the drive is a capital.
pub open spec fn folded_path(path: Seq<Seq<u8>>) -> Seq<Seq<u8>> {
    Seq::new(
        path.len(),
        |i: int|
            if i == 0 {
                folded_drive(path[i])
            } else {
                path[i]
            },
    )
}

/// Whether a path lies at or below another, whatever the case of their drives.
pub open spec fn lies_below(path: Seq<Seq<u8>>, ancestor: Seq<Seq<u8>>) -> bool {
    ancestor.len() <= path.len() && folded_path(path).take(ancestor.len() as int) == folded_path(
        ancestor,
    )
}

fn fold_drive(first: &[u8]) -> (folded: Vec<u8>)
    ensures
        folded@ == folded_drive(first@),
{
    let verbatim = first.len() > 4 && first[0] == 0x5c && first[1] == 0x5c && first[2] == 0x3f
        && first[3] == 0x5c;
    let mut folded: Vec<u8> = Vec::new();
    for i in 0..first.len()
        invariant
            verbatim == (first@.len() > 4 && first@[0] == 0x5c && first@[1] == 0x5c && first@[2]
                == 0x3f && first@[3] == 0x5c),
            folded@.len() == i,
            forall|k: int| 0 <= k < i ==> folded@[k] == folded_drive(first@)[k],
    {
        let byte: u8 = first[i];
        let letter = (i == 0 || i == 4 && verbatim) && i + 1 < first.len() && first[i + 1] == 0x3a;
        if letter && 0x61 <= byte && byte <= 0x7a {
            folded.push(byte - 0x20);
        } else {
            folded.push(byte);
        }
    }
    assert(folded@ =~= folded_drive(first@));
    folded
}

fn same_component(at: usize, left: &[u8], right: &[u8]) -> (same: bool)
    ensures
        same == if at == 0 {
            folded_drive(left@) == folded_drive(right@)
        } else {
            left@ == right@
        },
{
    if at == 0 {
        same_bytes(&fold_drive(left), &fold_drive(right))
    } else {
        same_bytes(left, right)
    }
}

fn is_below(path: &[Vec<u8>], ancestor: &[Vec<u8>]) -> (below: bool)
    ensures
        below == lies_below(text::byte_views(path@), text::byte_views(ancestor@)),
{
    let ghost whole = folded_path(text::byte_views(path@));
    let ghost prefix = folded_path(text::byte_views(ancestor@));
    if ancestor.len() > path.len() {
        return false;
    }
    for i in 0..ancestor.len()
        invariant
            whole == folded_path(text::byte_views(path@)),
            prefix == folded_path(text::byte_views(ancestor@)),
            ancestor@.len() <= path@.len(),
            forall|k: int| 0 <= k < i ==> whole[k] == prefix[k],
    {
        if !same_component(i, &path[i], &ancestor[i]) {
            proof {
                assert(whole[i as int] != prefix[i as int]);
                assert(whole.take(prefix.len() as int)[i as int] == whole[i as int]);
            }
            return false;
        }
    }
    assert(whole.take(prefix.len() as int) =~= prefix);
    true
}

/// Whether file system `chosen` holds `root`: its path leads to the root, none
/// of the others that do is deeper, and of equally deep ones it is the last.
pub open spec fn holds_root(root: Seq<Vec<u8>>, mounts: Seq<Mount>, chosen: int) -> bool {
    &&& 0 <= chosen < mounts.len()
    &&& lies_below(text::byte_views(root), text::byte_views(mounts[chosen].components@))
    &&& forall|i: int|
        #![trigger mounts[i]]
        0 <= i < mounts.len() && lies_below(text::byte_views(root), text::byte_views(mounts[i].components@))
            ==> {
            &&& mounts[i].components@.len() <= mounts[chosen].components@.len()
            &&& i > chosen ==> mounts[i].components@.len() < mounts[chosen].components@.len()
        }
}

/// Whether no file system holds `root`.
pub open spec fn none_holds_root(root: Seq<Vec<u8>>, mounts: Seq<Mount>) -> bool {
    forall|i: int|
        #![trigger mounts[i]]
        0 <= i < mounts.len() ==> !lies_below(
            text::byte_views(root),
            text::byte_views(mounts[i].components@),
        )
}

/// The file system that holds `root`.
pub fn choose_mount(root: &[Vec<u8>], mounts: &[Mount]) -> (chosen: Option<usize>)
    ensures
        match chosen {
            Some(chosen) => holds_root(root@, mounts@, chosen as int),
            None => none_holds_root(root@, mounts@),
        },
{
    let mut chosen: Option<usize> = None;
    for i in 0..mounts.len()
        invariant
            match chosen {
                Some(chosen) => holds_root(root@, mounts@.take(i as int), chosen as int),
                None => forall|k: int|
                    #![trigger mounts@[k]]
                    0 <= k < i ==> !lies_below(
                        text::byte_views(root@),
                        text::byte_views(mounts@[k].components@),
                    ),
            },
    {
        let ghost before = mounts@.take(i as int);
        let ghost after = mounts@.take(i + 1);
        proof {
            assert forall|k: int| 0 <= k < i implies #[trigger] before[k] == mounts@[k] by {}
            assert forall|k: int| 0 <= k <= i implies #[trigger] after[k] == mounts@[k] by {}
        }
        if is_below(root, &mounts[i].components) {
            let deeper = match chosen {
                Some(best) => mounts[best].components.len() <= mounts[i].components.len(),
                None => true,
            };
            if deeper {
                proof {
                    assert forall|k: int|
                        #![trigger after[k]]
                        0 <= k < after.len() && lies_below(
                            text::byte_views(root@),
                            text::byte_views(after[k].components@),
                        ) implies after[k].components@.len() <= mounts@[i as int].components@.len()
                        by {
                        if k < i {
                            assert(before[k] == mounts@[k]);
                        }
                    }
                }
                chosen = Some(i);
            } else {
                proof {
                    let best = chosen->0 as int;
                    assert forall|k: int|
                        #![trigger after[k]]
                        0 <= k < after.len() && lies_below(
                            text::byte_views(root@),
                            text::byte_views(after[k].components@),
                        ) implies {
                        &&& after[k].components@.len() <= after[best].components@.len()
                        &&& k > best ==> after[k].components@.len() < after[best].components@.len()
                    } by {
                        if k < i {
                            assert(before[k] == mounts@[k]);
                        }
                    }
                }
            }
        } else {
            proof {
                if let Some(best) = chosen {
                    assert forall|k: int|
                        #![trigger after[k]]
                        0 <= k < after.len() && lies_below(
                            text::byte_views(root@),
                            text::byte_views(after[k].components@),
                        ) implies {
                        &&& after[k].components@.len() <= after[best as int].components@.len()
                        &&& k > best ==> after[k].components@.len()
                            < after[best as int].components@.len()
                    } by {
                        assert(k < i);
                        assert(before[k] == mounts@[k]);
                    }
                }
            }
        }
    }
    assert(mounts@.take(mounts@.len() as int) =~= mounts@);
    chosen
}

/// What a manifest says about the substrate of its machine.
#[derive(Debug)]
pub struct HerdrSettings {
    pub installed: Option<bool>,
    pub enabled: Option<bool>,
    pub session: Option<String>,
}

/// A substrate is in use where it is installed and not disabled.
pub open spec fn substrate_in_use(herdr: Option<HerdrSettings>) -> bool {
    herdr matches Some(herdr) && herdr.installed == Some(true) && herdr.enabled != Some(false)
}

/// What a machine reports about its substrate: that it is registered, with the
/// session of the manifest, or that there is none.
pub open spec fn reports_substrate(
    herdr: Option<HerdrSettings>,
    status: SubstrateStatus,
) -> bool {
    if substrate_in_use(herdr) {
        &&& text::is_text(status.kind, "herdr"@)
        &&& status.state@ == "registered"@
        &&& match herdr->0.session {
            Some(session) => text::is_text(status.session, session@),
            None => status.session is None,
        }
    } else {
        status.kind is None && status.state@ == "none"@ && status.session is None
    }
}

/// The substrate that a machine reports.
pub fn substrate_status(herdr: &Option<HerdrSettings>) -> (status: SubstrateStatus)
    ensures
        reports_substrate(*herdr, status),
{
    match herdr {
        Some(herdr) => {
            let installed = match herdr.installed {
                Some(installed) => installed,
                None => false,
            };
            let enabled = match herdr.enabled {
                Some(enabled) => enabled,
                None => true,
            };
            if installed && enabled {
                return SubstrateStatus {
                    kind: Some("herdr".to_owned()),
                    state: "registered".to_owned(),
                    session: match &herdr.session {
                        Some(session) => Some(session.clone()),
                        None => None,
                    },
                };
            }
        },
        None => {},
    }
    SubstrateStatus { kind: None, state: "none".to_owned(), session: None }
}

/// What was measured on a machine.
#[derive(Debug)]
pub struct Measurements {
    pub time: String,
    pub cpu: CpuStatus,
    pub memory: MemoryStatus,
    pub mounts: Vec<Mount>,
}

/// What a machine says of itself: what was measured, with the space that is free
/// where its root is, and without jobs.
pub open spec fn captured(
    machine_id: u128,
    root: Seq<char>,
    root_components: Seq<Vec<u8>>,
    herdr: Option<HerdrSettings>,
    measured: Measurements,
    status: MachineStatus,
) -> bool {
    &&& status.machine_id == machine_id
    &&& status.time@ == measured.time@
    &&& status.cpu == measured.cpu
    &&& status.memory == measured.memory
    &&& status.disk.root@ == root
    &&& exists|chosen: int| #[trigger]
        holds_root(root_components, measured.mounts@, chosen) && status.disk.free_bytes
            == measured.mounts@[chosen].free_bytes
    &&& status.jobs == (JobStatus { running: 0, heavy_running: 0 })
    &&& reports_substrate(herdr, status.substrate)
}

/// The report of a machine, made from what was measured on it and what its
/// manifest says: its identity, its worker root as text and by components, and
/// its substrate.
pub fn capture_machine_status(
    machine_id: u128,
    root: &str,
    root_components: &[Vec<u8>],
    herdr: &Option<HerdrSettings>,
    measured: Measurements,
) -> (result: Result<MachineStatus, StatusError>)
    ensures
        match result {
            Ok(status) => captured(
                machine_id,
                root@,
                root_components@,
                *herdr,
                measured,
                status,
            ),
            Err(_) => none_holds_root(root_components@, measured.mounts@),
        },
{
    let chosen: usize = match choose_mount(root_components, &measured.mounts) {
        Some(chosen) => chosen,
        None => {
            return Err(StatusError);
        },
    };
    assert(holds_root(root_components@, measured.mounts@, chosen as int));
    let free_bytes: u64 = measured.mounts[chosen].free_bytes;
    let substrate = substrate_status(herdr);
    Ok(
        MachineStatus {
            machine_id,
            time: measured.time,
            cpu: measured.cpu,
            memory: measured.memory,
            disk: DiskStatus { root: root.to_owned(), free_bytes },
            jobs: JobStatus { running: 0, heavy_running: 0 },
            substrate,
        },
    )
}

/// A machine's own account of its substrate is one that a controller accepts,
/// as long as its session is presentable.
pub proof fn reported_substrates_are_accepted<F: Fn(&str) -> bool>(
    secret: F,
    herdr: Option<HerdrSettings>,
    status: SubstrateStatus,
)
    requires
        reports_substrate(herdr, status),
        status.session matches Some(session) ==> presentable(secret, session@, 255),
    ensures
        substrate_is_valid(secret, status),
{
    reveal_strlit("registered");
    reveal_strlit("none");
    assert("registered"@.len() != "none"@.len());
}

/// What a machine says of itself is accepted by the controller that expects it,
/// as long as what was measured makes sense and its root and session are
/// presentable.
pub proof fn captured_statuses_are_accepted<F: Fn(&str) -> bool>(
    secret: F,
    machine_id: u128,
    root: Seq<char>,
    root_components: Seq<Vec<u8>>,
    herdr: Option<HerdrSettings>,
    measured: Measurements,
    status: MachineStatus,
)
    requires
        captured(machine_id, root, root_components, herdr, measured, status),
        rfc3339_time(measured.time@) && text::byte_len(measured.time@) <= 64,
        measured.cpu.logical != 0 && measured.cpu.load_in_range,
        0 < measured.memory.total_bytes,
        measured.memory.available_bytes <= measured.memory.total_bytes,
        presentable(secret, root, MAX_DISK_ROOT_BYTES as nat),
        status.substrate.session matches Some(session) ==> presentable(secret, session@, 255),
    ensures
        acceptable_status(secret, status, machine_id, rfc3339_time(status.time@)),
{
    reported_substrates_are_accepted(secret, herdr, status.substrate);
}

} // verus!
