//! Starting the application again and telling, after a short observation
//! window, whether it is alive.

use vstd::prelude::*;

verus! {

/// The time, in milliseconds, for which a started application is left
/// alone before its status is polled.
pub const OBSERVATION_WINDOW_MS: u64 = 3000;

/// Why an application could not be probed.
#[derive(Clone, Copy, Debug, PartialEq, Eq, Structural)]
pub enum LaunchError {
    /// There is no file at the executable's path; nothing was started.
    ExecutableMissing,
    /// The executable could not be started.
    SpawnFailed,
    /// The application was started, but its status could not be read.
    StatusUnavailable,
}

/// What probing the started application found.
#[derive(Clone, Copy, Debug, PartialEq, Eq, Structural)]
pub enum LaunchOutcome {
    /// The application was still running when the window had passed.
    StillRunning,
    /// The application had ended within the window, with this exit code
    /// if it left one.
    ExitedImmediately(Option<i32>),
    /// The application could not be started or observed.
    LaunchFailed(LaunchError),
}

/// What a poll of the started application's status, made without
/// blocking, returns.
#[derive(Clone, Copy, Debug, PartialEq, Eq, Structural)]
pub enum ChildStatus {
    /// The application has not ended.
    Running,
    /// The application has ended, with this exit code if it left one.
    Exited(Option<i32>),
    /// The status could not be read.
    Unknown,
}

/// The steps of a probe, for the caller to carry out.
#[derive(Clone, Copy, Debug, PartialEq, Eq, Structural)]
pub enum ProbeStep {
    /// Tell whether there is a file at the executable's path.
    CheckExecutable,
    /// Start the executable, its output streams detached from the
    /// caller's.
    Spawn,
    /// Wait for the given number of milliseconds, then poll the
    /// application's status without blocking.
    Observe { window_ms: u64 },
}

/// Where a probe stands after a step.
#[derive(Clone, Copy, Debug, PartialEq, Eq, Structural)]
pub enum ProbeProgress {
    /// This step is to be carried out next.
    Next(ProbeStep),
    /// The probe has ended.
    Finished(LaunchOutcome),
}

/// The outcome of a probe in which the executable `exists`, starting it
/// `started` the application, and the poll after the window returned
/// `status`. What was not observed, because the probe ended before it,
/// does not count.
pub open spec fn launch_outcome(exists: bool, started: bool, status: ChildStatus) -> LaunchOutcome {
    if !exists {
        LaunchOutcome::LaunchFailed(LaunchError::ExecutableMissing)
    } else if !started {
        LaunchOutcome::LaunchFailed(LaunchError::SpawnFailed)
    } else {
        match status {
            ChildStatus::Running => LaunchOutcome::StillRunning,
            ChildStatus::Exited(code) => LaunchOutcome::ExitedImmediately(code),
            ChildStatus::Unknown => LaunchOutcome::LaunchFailed(LaunchError::StatusUnavailable),
        }
    }
}

/// The step that a probe begins with.
pub fn begin_probe() -> (step: ProbeStep)
    ensures
        step == ProbeStep::CheckExecutable,
{
    ProbeStep::CheckExecutable
}

/// Goes on from the check of the executable's path: an executable that
/// is not there is never started.
pub fn on_executable_checked(exists: bool) -> (p: ProbeProgress)
    ensures
        exists ==> p == ProbeProgress::Next(ProbeStep::Spawn),
        !exists ==> p == ProbeProgress::Finished(
            LaunchOutcome::LaunchFailed(LaunchError::ExecutableMissing),
        ),
        forall|started: bool, status: ChildStatus|
            p matches ProbeProgress::Finished(outcome) ==> outcome == #[trigger] launch_outcome(
                exists,
                started,
                status,
            ),
{
    if exists {
        ProbeProgress::Next(ProbeStep::Spawn)
    } else {
        ProbeProgress::Finished(LaunchOutcome::LaunchFailed(LaunchError::ExecutableMissing))
    }
}

/// Goes on from the attempt to start the executable: an application that
/// was started is observed for `window_ms` milliseconds.
pub fn on_spawned(started: bool, window_ms: u64) -> (p: ProbeProgress)
    ensures
        started ==> p == ProbeProgress::Next(ProbeStep::Observe { window_ms }),
        !started ==> p == ProbeProgress::Finished(
            LaunchOutcome::LaunchFailed(LaunchError::SpawnFailed),
        ),
        forall|status: ChildStatus|
            p matches ProbeProgress::Finished(outcome) ==> outcome == #[trigger] launch_outcome(
                true,
                started,
                status,
            ),
{
    if started {
        ProbeProgress::Next(ProbeStep::Observe { window_ms })
    } else {
        ProbeProgress::Finished(LaunchOutcome::LaunchFailed(LaunchError::SpawnFailed))
    }
}

/// Ends the probe with what the poll after the window returned.
pub fn on_observed(status: ChildStatus) -> (outcome: LaunchOutcome)
    ensures
        outcome == launch_outcome(true, true, status),
        outcome == LaunchOutcome::StillRunning <==> status == ChildStatus::Running,
{
    match status {
        ChildStatus::Running => LaunchOutcome::StillRunning,
        ChildStatus::Exited(code) => LaunchOutcome::ExitedImmediately(code),
        ChildStatus::Unknown => LaunchOutcome::LaunchFailed(LaunchError::StatusUnavailable),
    }
}

} // verus!
