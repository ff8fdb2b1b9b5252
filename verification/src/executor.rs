//! The self-replacement protocol: a state machine that decides, step by
//! step, what the runner must do next — download, verify, stage, swap —
//! and when to give up. The runner performs the requested action and
//! reports its outcome as the next event; the machine itself touches
//! nothing.
//!
//! The accompanying disk model states what each outcome means for the
//! executable path and the temporary artifact, under the one modelling
//! assumption that the final rename is atomic: the executable path then
//! always holds either the original binary or the updated one, never
//! neither, and holds the original unchanged until the swap has succeeded.

use vstd::prelude::*;

verus! {

/// Why an update run failed.
#[derive(Debug, Clone, Copy, PartialEq, Eq, Structural)]
pub enum UpdateError {
    /// The download kept failing after the bounded retries.
    DownloadError,
    /// The artifact did not verify (size mismatch, failed external check,
    /// or a failed pre-swap probe); the live binary is untouched.
    VerificationError,
    /// The atomic rename failed; the staged artifact is retained at its
    /// well-known path for manual recovery, the live binary is untouched.
    SwapError,
}

/// Where an update run stands.
#[derive(Debug, Clone, Copy, PartialEq, Eq, Structural)]
pub enum UpdateState {
    Idle,
    /// Attempt `attempt` (counted from 1) of the download is running.
    Downloading { attempt: u32 },
    /// The artifact arrived with `actual_size` bytes and is being checked.
    Verifying { actual_size: u64 },
    /// The verified artifact is being marked executable and probed.
    Staging,
    /// The atomic rename is in flight.
    Swapping,
    Done,
    Failed { error: UpdateError },
}

/// What the runner reports back after carrying out the requested action.
#[derive(Debug, Clone, Copy, PartialEq, Eq, Structural)]
pub enum UpdateEvent {
    Start,
    DownloadSucceeded { size: u64 },
    DownloadFailed,
    /// Outcome of the configured external check (checksum or signature);
    /// a runner with no check configured reports `passed: true`.
    ChecksumOutcome { passed: bool },
    StagingSucceeded,
    StagingFailed,
    SwapSucceeded,
    SwapFailed,
}

/// What the machine asks the runner to do next.
#[derive(Debug, Clone, Copy, PartialEq, Eq, Structural)]
pub enum UpdateAction {
    /// Stream the asset to a temporary file on the executable's volume.
    BeginDownload,
    /// Wait `delay_ms`, then download again.
    RetryDownload { delay_ms: u64 },
    /// Run the configured external check on the artifact.
    RunVerification,
    /// Mark the artifact executable and probe it.
    StageArtifact,
    /// Atomically rename the staged artifact over the executable path.
    PerformSwap,
    /// Remove the temporary artifact.
    DeleteTempArtifact,
    /// Leave the staged artifact in place for manual recovery.
    KeepStagedArtifact,
    NoAction,
}

/// What the executable path holds. `Missing` is what the protocol must
/// never reach.
pub enum InstalledBinary {
    Original,
    Updated,
    Missing,
}

/// What the temporary download path holds.
pub enum TempArtifact {
    Absent,
    /// A fully written download of `size` bytes.
    Complete { size: u64 },
    /// A verified artifact, marked executable, of `size` bytes.
    Staged { size: u64 },
}

/// The model of the two disk locations the protocol touches.
pub ghost struct DiskModel {
    pub installed: InstalledBinary,
    pub temp: TempArtifact,
}

/// The retry delay before download attempt `attempt + 1`: doubling from
/// half a second, capped at thirty seconds.
pub open spec fn backoff_ms(attempt: u32) -> u64
    decreases attempt,
{
    if attempt <= 1 {
        500
    } else {
        let p = backoff_ms((attempt - 1) as u32);
        if p >= 15000 {
            30000
        } else {
            (p * 2) as u64
        }
    }
}

pub proof fn backoff_ms_bounded(attempt: u32)
    ensures
        500 <= backoff_ms(attempt) <= 30000,
    decreases attempt,
{
    if attempt > 1 {
        backoff_ms_bounded((attempt - 1) as u32);
    }
}

/// Computes the retry delay.
pub fn backoff_delay(attempt: u32) -> (d: u64)
    ensures
        d == backoff_ms(attempt),
    decreases attempt,
{
    proof {
        backoff_ms_bounded(attempt);
    }
    if attempt <= 1 {
        500
    } else {
        let p = backoff_delay(attempt - 1);
        proof {
            backoff_ms_bounded((attempt - 1) as u32);
        }
        if p >= 15000 {
            30000
        } else {
            p * 2
        }
    }
}

/// The update executor: carries the catalog-reported artifact size, the
/// retry bound, and the current protocol state.
pub struct UpdateExecutor {
    pub expected_size: u64,
    pub max_attempts: u32,
    pub state: UpdateState,
}

/// The state after `event` arrives in machine `m`. An event that does not
/// belong to the current state changes nothing.
pub open spec fn next_state(m: UpdateExecutor, event: UpdateEvent) -> UpdateState {
    match (m.state, event) {
        (UpdateState::Idle, UpdateEvent::Start) => UpdateState::Downloading { attempt: 1 },
        (UpdateState::Downloading { .. }, UpdateEvent::DownloadSucceeded { size }) =>
            UpdateState::Verifying { actual_size: size },
        (UpdateState::Downloading { attempt }, UpdateEvent::DownloadFailed) => if attempt
            < m.max_attempts {
            UpdateState::Downloading { attempt: (attempt + 1) as u32 }
        } else {
            UpdateState::Failed { error: UpdateError::DownloadError }
        },
        (UpdateState::Verifying { actual_size }, UpdateEvent::ChecksumOutcome { passed }) => if passed
            && actual_size == m.expected_size {
            UpdateState::Staging
        } else {
            UpdateState::Failed { error: UpdateError::VerificationError }
        },
        (UpdateState::Staging, UpdateEvent::StagingSucceeded) => UpdateState::Swapping,
        (UpdateState::Staging, UpdateEvent::StagingFailed) => UpdateState::Failed {
            error: UpdateError::VerificationError,
        },
        (UpdateState::Swapping, UpdateEvent::SwapSucceeded) => UpdateState::Done,
        (UpdateState::Swapping, UpdateEvent::SwapFailed) => UpdateState::Failed {
            error: UpdateError::SwapError,
        },
        _ => m.state,
    }
}

/// The action the machine requests when `event` arrives in machine `m`.
pub open spec fn action_for(m: UpdateExecutor, event: UpdateEvent) -> UpdateAction {
    match (m.state, event) {
        (UpdateState::Idle, UpdateEvent::Start) => UpdateAction::BeginDownload,
        (UpdateState::Downloading { .. }, UpdateEvent::DownloadSucceeded { .. }) =>
            UpdateAction::RunVerification,
        (UpdateState::Downloading { attempt }, UpdateEvent::DownloadFailed) => if attempt
            < m.max_attempts {
            UpdateAction::RetryDownload { delay_ms: backoff_ms(attempt) }
        } else {
            UpdateAction::DeleteTempArtifact
        },
        (UpdateState::Verifying { actual_size }, UpdateEvent::ChecksumOutcome { passed }) => if passed
            && actual_size == m.expected_size {
            UpdateAction::StageArtifact
        } else {
            UpdateAction::DeleteTempArtifact
        },
        (UpdateState::Staging, UpdateEvent::StagingSucceeded) => UpdateAction::PerformSwap,
        (UpdateState::Staging, UpdateEvent::StagingFailed) => UpdateAction::DeleteTempArtifact,
        (UpdateState::Swapping, UpdateEvent::SwapSucceeded) => UpdateAction::NoAction,
        (UpdateState::Swapping, UpdateEvent::SwapFailed) => UpdateAction::KeepStagedArtifact,
        _ => UpdateAction::NoAction,
    }
}

/// How the disk looks once the runner has carried out what `event`
/// reports, together with the cleanup the protocol mandates for it. The
/// rename is modelled as atomic: `SwapSucceeded` moves the staged artifact
/// over the executable path in one step, `SwapFailed` changes nothing. An
/// event that does not belong to the current state changes nothing.
pub open spec fn disk_after(d: DiskModel, m: UpdateExecutor, event: UpdateEvent) -> DiskModel {
    match (m.state, event) {
        (UpdateState::Downloading { .. }, UpdateEvent::DownloadSucceeded { size }) => DiskModel {
            installed: d.installed,
            temp: TempArtifact::Complete { size },
        },
        (UpdateState::Downloading { .. }, UpdateEvent::DownloadFailed) => DiskModel {
            installed: d.installed,
            temp: TempArtifact::Absent,
        },
        (UpdateState::Verifying { actual_size }, UpdateEvent::ChecksumOutcome { passed }) => if passed
            && actual_size == m.expected_size {
            d
        } else {
            DiskModel { installed: d.installed, temp: TempArtifact::Absent }
        },
        (UpdateState::Staging, UpdateEvent::StagingSucceeded) => DiskModel {
            installed: d.installed,
            temp: match d.temp {
                TempArtifact::Complete { size } => TempArtifact::Staged { size },
                _ => d.temp,
            },
        },
        (UpdateState::Staging, UpdateEvent::StagingFailed) => DiskModel {
            installed: d.installed,
            temp: TempArtifact::Absent,
        },
        (UpdateState::Swapping, UpdateEvent::SwapSucceeded) => DiskModel {
            installed: InstalledBinary::Updated,
            temp: TempArtifact::Absent,
        },
        (UpdateState::Swapping, UpdateEvent::SwapFailed) => d,
        _ => d,
    }
}

/// The protocol invariant tying the machine's state to the disk model:
/// the executable path always holds a complete binary — the original one
/// in every state but `Done` — and the temporary artifact is exactly what
/// the state says it must be.
pub open spec fn protocol_inv(m: UpdateExecutor, d: DiskModel) -> bool {
    match m.state {
        UpdateState::Idle => d.installed is Original && d.temp is Absent,
        UpdateState::Downloading { .. } => d.installed is Original && d.temp is Absent,
        UpdateState::Verifying { actual_size } => d.installed is Original && d.temp
            == (TempArtifact::Complete { size: actual_size }),
        UpdateState::Staging => d.installed is Original && d.temp == (TempArtifact::Complete {
            size: m.expected_size,
        }),
        UpdateState::Swapping => d.installed is Original && d.temp == (TempArtifact::Staged {
            size: m.expected_size,
        }),
        UpdateState::Done => d.installed is Updated && d.temp is Absent,
        UpdateState::Failed { error } => d.installed is Original && match error {
            UpdateError::SwapError => d.temp is Staged,
            _ => d.temp is Absent,
        },
    }
}

impl UpdateExecutor {
    /// A fresh run for an artifact of `expected_size` bytes, allowing up
    /// to `max_attempts` download attempts.
    pub fn new(expected_size: u64, max_attempts: u32) -> (m: UpdateExecutor)
        requires
            max_attempts >= 1,
        ensures
            m.expected_size == expected_size,
            m.max_attempts == max_attempts,
            m.state is Idle,
    {
        UpdateExecutor { expected_size, max_attempts, state: UpdateState::Idle }
    }

    /// Feeds one outcome event to the machine and returns the next action
    /// for the runner, exactly as `next_state` and `action_for` describe.
    pub fn step(&mut self, event: UpdateEvent) -> (a: UpdateAction)
        ensures
            final(self).state == next_state(*old(self), event),
            final(self).expected_size == old(self).expected_size,
            final(self).max_attempts == old(self).max_attempts,
            a == action_for(*old(self), event),
    {
        match (self.state, event) {
            (UpdateState::Idle, UpdateEvent::Start) => {
                self.state = UpdateState::Downloading { attempt: 1 };
                UpdateAction::BeginDownload
            },
            (UpdateState::Downloading { .. }, UpdateEvent::DownloadSucceeded { size }) => {
                self.state = UpdateState::Verifying { actual_size: size };
                UpdateAction::RunVerification
            },
            (UpdateState::Downloading { attempt }, UpdateEvent::DownloadFailed) => {
                if attempt < self.max_attempts {
                    self.state = UpdateState::Downloading { attempt: attempt + 1 };
                    UpdateAction::RetryDownload { delay_ms: backoff_delay(attempt) }
                } else {
                    self.state = UpdateState::Failed { error: UpdateError::DownloadError };
                    UpdateAction::DeleteTempArtifact
                }
            },
            (UpdateState::Verifying { actual_size }, UpdateEvent::ChecksumOutcome { passed }) => {
                if passed && actual_size == self.expected_size {
                    self.state = UpdateState::Staging;
                    UpdateAction::StageArtifact
                } else {
                    self.state = UpdateState::Failed { error: UpdateError::VerificationError };
                    UpdateAction::DeleteTempArtifact
                }
            },
            (UpdateState::Staging, UpdateEvent::StagingSucceeded) => {
                self.state = UpdateState::Swapping;
                UpdateAction::PerformSwap
            },
            (UpdateState::Staging, UpdateEvent::StagingFailed) => {
                self.state = UpdateState::Failed { error: UpdateError::VerificationError };
                UpdateAction::DeleteTempArtifact
            },
            (UpdateState::Swapping, UpdateEvent::SwapSucceeded) => {
                self.state = UpdateState::Done;
                UpdateAction::NoAction
            },
            (UpdateState::Swapping, UpdateEvent::SwapFailed) => {
                self.state = UpdateState::Failed { error: UpdateError::SwapError };
                UpdateAction::KeepStagedArtifact
            },
            _ => UpdateAction::NoAction,
        }
    }
}

/// A fresh machine together with the disk as an update run finds it —
/// original binary installed, no leftover artifact — satisfies the
/// protocol invariant.
pub proof fn protocol_inv_init(m: UpdateExecutor)
    requires
        m.state is Idle,
    ensures
        protocol_inv(
            m,
            DiskModel { installed: InstalledBinary::Original, temp: TempArtifact::Absent },
        ),
{
}

/// The machine as it stands after `event`: the next state, with the sizes
/// and bounds unchanged — exactly what `step` does.
pub open spec fn stepped(m: UpdateExecutor, event: UpdateEvent) -> UpdateExecutor {
    UpdateExecutor {
        expected_size: m.expected_size,
        max_attempts: m.max_attempts,
        state: next_state(m, event),
    }
}

/// The machine after a whole run of events.
pub open spec fn machine_after(m: UpdateExecutor, events: Seq<UpdateEvent>) -> UpdateExecutor
    decreases events.len(),
{
    if events.len() == 0 {
        m
    } else {
        machine_after(stepped(m, events[0]), events.skip(1))
    }
}

/// The disk after a whole run of events.
pub open spec fn disk_after_run(d: DiskModel, m: UpdateExecutor, events: Seq<UpdateEvent>) -> DiskModel
    decreases events.len(),
{
    if events.len() == 0 {
        d
    } else {
        disk_after_run(disk_after(d, m, events[0]), stepped(m, events[0]), events.skip(1))
    }
}

/// Every step of the protocol preserves the invariant: whatever event the
/// runner reports, the machine's next state again describes the disk.
pub proof fn step_preserves_protocol_inv(m: UpdateExecutor, event: UpdateEvent, d: DiskModel)
    requires
        protocol_inv(m, d),
    ensures
        protocol_inv(stepped(m, event), disk_after(d, m, event)),
{
}

/// Along every run — whatever outcomes the runner reports, in whatever
/// order, for however many steps — the invariant holds: the executable
/// path never holds neither binary, and holds the original one until the
/// swap has succeeded.
pub proof fn run_preserves_protocol_inv(m: UpdateExecutor, events: Seq<UpdateEvent>, d: DiskModel)
    requires
        protocol_inv(m, d),
    ensures
        protocol_inv(machine_after(m, events), disk_after_run(d, m, events)),
    decreases events.len(),
{
    if events.len() > 0 {
        step_preserves_protocol_inv(m, events[0], d);
        run_preserves_protocol_inv(
            stepped(m, events[0]),
            events.skip(1),
            disk_after(d, m, events[0]),
        );
    }
}

/// The executable path never holds neither binary: in every state the
/// protocol invariant reaches, a complete binary is installed.
pub proof fn installed_binary_never_missing(m: UpdateExecutor, d: DiskModel)
    requires
        protocol_inv(m, d),
    ensures
        !(d.installed is Missing),
        d.installed is Original || d.installed is Updated,
{
}

/// Until the swap has succeeded — in particular after a crash while
/// downloading, verifying or staging, and after every failure — the
/// original executable is still installed, byte for byte.
pub proof fn original_kept_until_swap(m: UpdateExecutor, d: DiskModel)
    requires
        protocol_inv(m, d),
        !(m.state is Done),
    ensures
        d.installed is Original,
{
}

/// A corrupted download — the artifact's size differing from the
/// catalog-reported one — is rejected while verifying: the machine fails
/// with `VerificationError`, the artifact is deleted, and the original
/// executable is unchanged.
pub proof fn size_mismatch_rejected(m: UpdateExecutor, event: UpdateEvent, d: DiskModel)
    requires
        protocol_inv(m, d),
        m.state matches UpdateState::Verifying { actual_size } && actual_size != m.expected_size,
        event is ChecksumOutcome,
    ensures
        next_state(m, event) == (UpdateState::Failed { error: UpdateError::VerificationError }),
        action_for(m, event) is DeleteTempArtifact,
        disk_after(d, m, event).installed is Original,
        disk_after(d, m, event).temp is Absent,
{
}

/// Only an artifact that verified — exactly the catalog-reported size,
/// external check passed — ever reaches the swap: in the `Swapping` state
/// the staged artifact has the expected size.
pub proof fn only_verified_artifact_swapped(m: UpdateExecutor, d: DiskModel)
    requires
        protocol_inv(m, d),
        m.state is Swapping,
    ensures
        d.temp == (TempArtifact::Staged { size: m.expected_size }),
{
}

} // verus!

