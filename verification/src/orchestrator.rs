//! The sequence of an update run: stop the application, build the new
//! tree, exchange it for the live one, start the application, and clean
//! up or keep the backup, depending on whether it came up.

use crate::probe::LaunchOutcome;
use crate::swap::{
    advance, new_tree, progress, steps_left, updated, lemma_update_result, SwapOutcome, SwapProgress,
    SwapStep,
};
use crate::workspace::{performed, FsOperation, Layout, Slot, StepResult, Workspace};
use vstd::prelude::*;

verus! {

/// The stages that a run goes through.
#[derive(Clone, Copy, Debug, PartialEq, Eq, Structural)]
pub enum Stage {
    /// Nothing has been done yet.
    Start,
    /// The application has been stopped; staging is being built.
    ProcessesReaped,
    /// Staging holds the new tree; the directories are being exchanged.
    UpdateStaged,
    /// The live name holds the new tree.
    Swapped,
    /// The application has been started and probed.
    Launched,
    /// The incoming directory and the backup have been dealt with.
    CleanedUp,
    /// The incoming directory and the backup are kept.
    BackupPreserved,
    /// The run is over; the update was applied.
    Finished,
    /// The update was given up or stopped; the run ends with an error.
    Failed,
}

/// Where a run stands.
#[derive(Clone, Copy, Debug, PartialEq, Eq, Structural)]
pub enum RunState {
    /// Nothing has been done yet.
    Start,
    /// The application has been stopped, and this step of the update is
    /// to be taken.
    Updating(SwapStep),
    /// The live name holds the new tree.
    Swapped,
    /// The application has been started and probed, with this outcome.
    Launched(LaunchOutcome),
    /// The application came up and the incoming directory has been dealt
    /// with; the backup is to be deleted.
    RemovingBackup,
    /// The incoming directory and the backup have been dealt with.
    CleanedUp,
    /// The application did not come up; the incoming directory and the
    /// backup are left for inspection.
    BackupPreserved,
    /// The run is over.
    Finished,
    /// The update ended without being applied.
    Failed(SwapOutcome),
}

/// What the caller does next.
#[derive(Clone, Copy, Debug, PartialEq, Eq, Structural)]
pub enum Command {
    /// Terminate the processes of the application and wait for them to
    /// go.
    Reap,
    /// Carry out this operation on the directories.
    Perform(FsOperation),
    /// Start the application and probe it.
    LaunchAndProbe,
    /// Leave the incoming directory and the backup where they are.
    KeepBackup,
    /// Report that the run is over.
    Finish,
    /// End the process with this exit code.
    Exit(i32),
}

/// What the caller reports back.
#[derive(Clone, Copy, Debug, PartialEq, Eq, Structural)]
pub enum Event {
    /// The command has been carried out; it has no result.
    Done,
    /// The operation on the directories ended in this way.
    StepEnded(StepResult),
    /// The probe of the application had this outcome.
    Probed(LaunchOutcome),
}

/// The stage that a state belongs to.
pub open spec fn stage_of(state: RunState) -> Stage {
    match state {
        RunState::Start => Stage::Start,
        RunState::Updating(step) => if steps_left(step) > 3 {
            Stage::ProcessesReaped
        } else {
            Stage::UpdateStaged
        },
        RunState::Swapped => Stage::Swapped,
        RunState::Launched(_) | RunState::RemovingBackup => Stage::Launched,
        RunState::CleanedUp => Stage::CleanedUp,
        RunState::BackupPreserved => Stage::BackupPreserved,
        RunState::Finished => Stage::Finished,
        RunState::Failed(_) => Stage::Failed,
    }
}

/// How far a state is into the run. No state is ever followed by one that
/// is less far.
pub open spec fn rank(state: RunState) -> nat {
    match state {
        RunState::Start => 0,
        RunState::Updating(step) => (8 - steps_left(step)) as nat,
        RunState::Swapped => 8,
        RunState::Launched(_) => 9,
        RunState::RemovingBackup => 10,
        RunState::CleanedUp | RunState::BackupPreserved => 11,
        RunState::Finished | RunState::Failed(_) => 12,
    }
}

/// The command that a state calls for.
///
/// The incoming directory and the backup are deleted only after a probe
/// that found the application running; after any other probe both are
/// kept. A run that applied the update ends with exit code 0, whatever
/// the probe found; one that did not ends with exit code 1.
pub open spec fn command_of(state: RunState) -> Command {
    match state {
        RunState::Start => Command::Reap,
        RunState::Updating(step) => Command::Perform(crate::swap::operation_of(step)),
        RunState::Swapped => Command::LaunchAndProbe,
        RunState::Launched(outcome) => if outcome == LaunchOutcome::StillRunning {
            Command::Perform(FsOperation::Remove(Slot::Incoming))
        } else {
            Command::KeepBackup
        },
        RunState::RemovingBackup => Command::Perform(FsOperation::Remove(Slot::Backup)),
        RunState::CleanedUp | RunState::BackupPreserved => Command::Finish,
        RunState::Finished => Command::Exit(0),
        RunState::Failed(_) => Command::Exit(1),
    }
}

/// The state that follows `state` on `event`.
///
/// An event that is not the report on the state's command leaves the
/// state as it is. Deleting the incoming directory or the backup is best
/// effort: the run goes on however it ended.
pub open spec fn next_state(state: RunState, event: Event) -> RunState {
    match (state, event) {
        (RunState::Start, Event::Done) => RunState::Updating(SwapStep::ClearStaging),
        (RunState::Updating(step), Event::StepEnded(result)) => match progress(step, result) {
            SwapProgress::Next(next) => RunState::Updating(next),
            SwapProgress::Finished(SwapOutcome::Applied) => RunState::Swapped,
            SwapProgress::Finished(outcome) => RunState::Failed(outcome),
        },
        (RunState::Swapped, Event::Probed(outcome)) => RunState::Launched(outcome),
        (RunState::Launched(outcome), Event::StepEnded(_)) => if outcome
            == LaunchOutcome::StillRunning {
            RunState::RemovingBackup
        } else {
            state
        },
        (RunState::Launched(outcome), Event::Done) => if outcome == LaunchOutcome::StillRunning {
            state
        } else {
            RunState::BackupPreserved
        },
        (RunState::RemovingBackup, Event::StepEnded(_)) => RunState::CleanedUp,
        (RunState::CleanedUp, Event::Done) => RunState::Finished,
        (RunState::BackupPreserved, Event::Done) => RunState::Finished,
        _ => state,
    }
}

/// Tells whether the run is over in `state`.
pub open spec fn is_terminal(state: RunState) -> bool {
    state is Finished || state is Failed
}

/// The state that a run begins in.
pub fn start() -> (state: RunState)
    ensures
        state == RunState::Start,
{
    RunState::Start
}

/// The stage that `state` belongs to.
pub fn stage(state: RunState) -> (s: Stage)
    ensures
        s == stage_of(state),
{
    match state {
        RunState::Start => Stage::Start,
        RunState::Updating(step) => match step {
            SwapStep::ClearStaging
            | SwapStep::CreateStaging
            | SwapStep::CarryForward
            | SwapStep::MirrorIncoming => Stage::ProcessesReaped,
            SwapStep::ClearBackup | SwapStep::MoveLiveAside | SwapStep::Promote => Stage::UpdateStaged,
        },
        RunState::Swapped => Stage::Swapped,
        RunState::Launched(_) | RunState::RemovingBackup => Stage::Launched,
        RunState::CleanedUp => Stage::CleanedUp,
        RunState::BackupPreserved => Stage::BackupPreserved,
        RunState::Finished => Stage::Finished,
        RunState::Failed(_) => Stage::Failed,
    }
}

/// The command that `state` calls for.
pub fn command(state: RunState) -> (c: Command)
    ensures
        c == command_of(state),
        c is Exit <==> is_terminal(state),
{
    match state {
        RunState::Start => Command::Reap,
        RunState::Updating(step) => Command::Perform(step.operation()),
        RunState::Swapped => Command::LaunchAndProbe,
        RunState::Launched(outcome) => match outcome {
            LaunchOutcome::StillRunning => Command::Perform(FsOperation::Remove(Slot::Incoming)),
            _ => Command::KeepBackup,
        },
        RunState::RemovingBackup => Command::Perform(FsOperation::Remove(Slot::Backup)),
        RunState::CleanedUp | RunState::BackupPreserved => Command::Finish,
        RunState::Finished => Command::Exit(0),
        RunState::Failed(_) => Command::Exit(1),
    }
}

/// Takes the run from `state` to the state that follows on `event`.
///
/// The stages are gone through in order, each at most once: the state that
/// is returned is `state` itself, where `event` is not what it waits for,
/// or a state further into the run.
pub fn transition(state: RunState, event: Event) -> (next: RunState)
    ensures
        next == next_state(state, event),
        next == state || rank(next) > rank(state),
        is_terminal(state) ==> next == state,
{
    match (state, event) {
        (RunState::Start, Event::Done) => RunState::Updating(SwapStep::first()),
        (RunState::Updating(step), Event::StepEnded(result)) => match advance(step, result) {
            SwapProgress::Next(next) => RunState::Updating(next),
            SwapProgress::Finished(SwapOutcome::Applied) => RunState::Swapped,
            SwapProgress::Finished(outcome) => RunState::Failed(outcome),
        },
        (RunState::Swapped, Event::Probed(outcome)) => RunState::Launched(outcome),
        (RunState::Launched(outcome), Event::StepEnded(_)) => match outcome {
            LaunchOutcome::StillRunning => RunState::RemovingBackup,
            _ => state,
        },
        (RunState::Launched(outcome), Event::Done) => match outcome {
            LaunchOutcome::StillRunning => state,
            _ => RunState::BackupPreserved,
        },
        (RunState::RemovingBackup, Event::StepEnded(_)) => RunState::CleanedUp,
        (RunState::CleanedUp, Event::Done) => RunState::Finished,
        (RunState::BackupPreserved, Event::Done) => RunState::Finished,
        _ => state,
    }
}

/// What carrying out `command` on directories held in memory leaves and
/// reports, where probing the application finds `launch`.
pub open spec fn carried_out(
    before: Layout,
    command: Command,
    ignores: Seq<Seq<char>>,
    launch: LaunchOutcome,
) -> (Layout, Event) {
    match command {
        Command::Perform(op) => {
            let (after, result) = performed(before, op, ignores);
            (after, Event::StepEnded(result))
        },
        Command::LaunchAndProbe => (before, Event::Probed(launch)),
        _ => (before, Event::Done),
    }
}

/// The directories and the state in which a run that stands at `state`
/// ends.
pub open spec fn run_on(
    before: Layout,
    state: RunState,
    ignores: Seq<Seq<char>>,
    launch: LaunchOutcome,
) -> (Layout, RunState)
    decreases 12 - rank(state),
{
    let (after, event) = carried_out(before, command_of(state), ignores, launch);
    let next = next_state(state, event);
    if rank(state) < rank(next) <= 12 {
        run_on(after, next, ignores, launch)
    } else {
        (before, state)
    }
}

/// The directories and the state in which a whole run ends.
pub open spec fn completed(before: Layout, ignores: Seq<Seq<char>>, launch: LaunchOutcome) -> (
    Layout,
    RunState,
) {
    run_on(before, RunState::Start, ignores, launch)
}

proof fn lemma_run_through_update(
    before: Layout,
    step: SwapStep,
    ignores: Seq<Seq<char>>,
    launch: LaunchOutcome,
)
    ensures
        run_on(before, RunState::Updating(step), ignores, launch) == ({
            let (after, outcome) = crate::swap::run_from(before, step, ignores);
            if outcome == SwapOutcome::Applied {
                run_on(after, RunState::Swapped, ignores, launch)
            } else {
                (after, RunState::Failed(outcome))
            }
        }),
    decreases steps_left(step),
{
    let (after, result) = performed(before, crate::swap::operation_of(step), ignores);
    match progress(step, result) {
        SwapProgress::Next(next) => {
            lemma_run_through_update(after, next, ignores, launch);
        },
        SwapProgress::Finished(outcome) => {
            if outcome != SwapOutcome::Applied {
                reveal_with_fuel(run_on, 2);
            }
        },
    }
}

/// What a whole run comes to.
///
/// Without an incoming directory the update is rejected and the run
/// fails, the live directory untouched. With one the update is applied
/// and the run finishes. If the application is then found running, the
/// incoming directory and the backup are deleted; if not, the incoming
/// directory is as before and the backup holds what the live directory
/// held.
pub proof fn lemma_run_result(before: Layout, ignores: Seq<Seq<char>>, launch: LaunchOutcome)
    ensures
        before.incoming is None ==> completed(before, ignores, launch) == (
            updated(before, ignores).0,
            RunState::Failed(SwapOutcome::Rejected(SwapStep::MirrorIncoming)),
        ),
        before.incoming is None ==> completed(before, ignores, launch).0.live == before.live,
        before.incoming is Some && launch == LaunchOutcome::StillRunning ==> completed(
            before,
            ignores,
            launch,
        ) == (
            Layout {
                live: Some(new_tree(before, ignores)),
                incoming: None,
                staging: None,
                backup: None,
            },
            RunState::Finished,
        ),
        before.incoming is Some && launch != LaunchOutcome::StillRunning ==> completed(
            before,
            ignores,
            launch,
        ) == (
            Layout {
                live: Some(new_tree(before, ignores)),
                incoming: before.incoming,
                staging: None,
                backup: before.live,
            },
            RunState::Finished,
        ),
{
    lemma_update_result(before, ignores);
    lemma_run_through_update(before, SwapStep::ClearStaging, ignores, launch);
    reveal_with_fuel(run_on, 6);
}

/// A second run, with the ignore list unchanged and whatever the probes
/// find, leaves the live directory as the first run left it.
pub proof fn lemma_run_idempotent(
    before: Layout,
    ignores: Seq<Seq<char>>,
    first: LaunchOutcome,
    second: LaunchOutcome,
)
    ensures
        completed(completed(before, ignores, first).0, ignores, second).0.live == completed(
            before,
            ignores,
            first,
        ).0.live,
{
    let once = completed(before, ignores, first).0;
    lemma_run_result(before, ignores, first);
    lemma_run_result(once, ignores, second);
    lemma_update_result(before, ignores);
    if once.incoming is Some {
        assert(new_tree(once, ignores) =~= new_tree(before, ignores));
    }
}

/// The exit code of a run that ended in `state`.
pub open spec fn exit_code_of(state: RunState) -> i32 {
    if state is Finished {
        0
    } else {
        1
    }
}

/// Runs a whole update on directories held in memory, where probing the
/// application finds `launch`, and returns the exit code.
pub fn run(ws: &mut Workspace, ignores: &Vec<String>, launch: LaunchOutcome) -> (code: i32)
    ensures
        final(ws)@ == completed(old(ws)@, ignores.deep_view(), launch).0,
        code == exit_code_of(completed(old(ws)@, ignores.deep_view(), launch).1),
        old(ws)@.incoming is None ==> code == 1 && final(ws)@.live == old(ws)@.live,
        old(ws)@.incoming is Some ==> {
            &&& code == 0
            &&& final(ws)@.live == Some(new_tree(old(ws)@, ignores.deep_view()))
            &&& final(ws)@.staging is None
        },
        old(ws)@.incoming is Some && launch == LaunchOutcome::StillRunning ==> {
            &&& final(ws)@.incoming is None
            &&& final(ws)@.backup is None
        },
        old(ws)@.incoming is Some && launch != LaunchOutcome::StillRunning ==> {
            &&& final(ws)@.incoming == old(ws)@.incoming
            &&& final(ws)@.backup == old(ws)@.live
        },
{
    let mut state = start();
    loop
        invariant
            run_on(ws@, state, ignores.deep_view(), launch) == completed(
                old(ws)@,
                ignores.deep_view(),
                launch,
            ),
        decreases 12 - rank(state),
    {
        let event = match command(state) {
            Command::Exit(code) => {
                proof {
                    lemma_run_result(old(ws)@, ignores.deep_view(), launch);
                }
                return code;
            },
            Command::Perform(op) => Event::StepEnded(ws.perform(op, ignores)),
            Command::LaunchAndProbe => Event::Probed(launch),
            Command::Reap | Command::KeepBackup | Command::Finish => Event::Done,
        };
        state = transition(state, event);
    }
}

} // verus!
