//! Replacing the live directory through a staging directory and a backup:
//! the steps, what each does to the directories, and what follows from
//! the way each one ends.

use crate::mirror::{matches_ignore, mirrored};
use crate::tree::Files;
use crate::workspace::{
    changes, files_of, performed, FsOperation, Layout, Slot, StepResult, Workspace,
};
use vstd::prelude::*;

verus! {

/// The steps of an update, in the order in which they are taken.
#[derive(Clone, Copy, Debug, PartialEq, Eq, Structural)]
pub enum SwapStep {
    /// Delete the staging directory that an earlier run may have left.
    ClearStaging,
    /// Create the staging directory.
    CreateStaging,
    /// Mirror the live directory into staging, with no ignore list, so
    /// that files which the update does not bring are kept.
    CarryForward,
    /// Mirror the incoming directory into staging, with the ignore list;
    /// its files replace those carried forward.
    MirrorIncoming,
    /// Delete the backup that an earlier run may have left.
    ClearBackup,
    /// Rename the live directory to the backup name.
    MoveLiveAside,
    /// Rename the staging directory to the live name.
    Promote,
}

/// What the way a step ended means for the update.
#[derive(Clone, Copy, Debug, PartialEq, Eq, Structural)]
pub enum Verdict {
    /// The update goes on with the next step.
    Proceed,
    /// The update is given up; the live directory has not been touched.
    Reject,
    /// The update stops in the middle of the exchange; the directories
    /// need attention by hand.
    Fatal,
}

/// How an update ended.
#[derive(Clone, Copy, Debug, PartialEq, Eq, Structural)]
pub enum SwapOutcome {
    /// All steps were taken: the live name holds the new tree.
    Applied,
    /// The update was given up at this step; the live directory is as it
    /// was.
    Rejected(SwapStep),
    /// The update stopped at this step of the exchange.
    Fatal(SwapStep),
}

/// Where an update stands after a step.
#[derive(Clone, Copy, Debug, PartialEq, Eq, Structural)]
pub enum SwapProgress {
    /// This step is to be taken next.
    Next(SwapStep),
    /// The update has ended.
    Finished(SwapOutcome),
}

/// The operation that a step consists of.
pub open spec fn operation_of(step: SwapStep) -> FsOperation {
    match step {
        SwapStep::ClearStaging => FsOperation::Remove(Slot::Staging),
        SwapStep::CreateStaging => FsOperation::Create(Slot::Staging),
        SwapStep::CarryForward => FsOperation::Mirror {
            from: Slot::Live,
            to: Slot::Staging,
            filtered: false,
        },
        SwapStep::MirrorIncoming => FsOperation::Mirror {
            from: Slot::Incoming,
            to: Slot::Staging,
            filtered: true,
        },
        SwapStep::ClearBackup => FsOperation::Remove(Slot::Backup),
        SwapStep::MoveLiveAside => FsOperation::Rename { from: Slot::Live, to: Slot::Backup },
        SwapStep::Promote => FsOperation::Rename { from: Slot::Staging, to: Slot::Live },
    }
}

/// The step that follows `step`, if any.
pub open spec fn successor(step: SwapStep) -> Option<SwapStep> {
    match step {
        SwapStep::ClearStaging => Some(SwapStep::CreateStaging),
        SwapStep::CreateStaging => Some(SwapStep::CarryForward),
        SwapStep::CarryForward => Some(SwapStep::MirrorIncoming),
        SwapStep::MirrorIncoming => Some(SwapStep::ClearBackup),
        SwapStep::ClearBackup => Some(SwapStep::MoveLiveAside),
        SwapStep::MoveLiveAside => Some(SwapStep::Promote),
        SwapStep::Promote => None,
    }
}

/// The number of steps from `step` to the end of the update, `step`
/// included.
pub open spec fn steps_left(step: SwapStep) -> nat {
    match step {
        SwapStep::ClearStaging => 7,
        SwapStep::CreateStaging => 6,
        SwapStep::CarryForward => 5,
        SwapStep::MirrorIncoming => 4,
        SwapStep::ClearBackup => 3,
        SwapStep::MoveLiveAside => 2,
        SwapStep::Promote => 1,
    }
}

/// The failure policy, step by step.
///
/// While staging is built, every failure gives the update up, and so does
/// a missing incoming directory; a live directory that is not there has
/// nothing to carry forward. A stale backup that cannot be deleted does
/// not stop the update. Once the exchange has begun, a failure is fatal;
/// a live directory that is not there has nothing to move aside.
pub open spec fn verdict(step: SwapStep, result: StepResult) -> Verdict {
    match step {
        SwapStep::ClearStaging | SwapStep::CarryForward => match result {
            StepResult::Done | StepResult::Absent => Verdict::Proceed,
            StepResult::Failed => Verdict::Reject,
        },
        SwapStep::CreateStaging | SwapStep::MirrorIncoming => match result {
            StepResult::Done => Verdict::Proceed,
            StepResult::Absent | StepResult::Failed => Verdict::Reject,
        },
        SwapStep::ClearBackup => Verdict::Proceed,
        SwapStep::MoveLiveAside => match result {
            StepResult::Done | StepResult::Absent => Verdict::Proceed,
            StepResult::Failed => Verdict::Fatal,
        },
        SwapStep::Promote => match result {
            StepResult::Done => Verdict::Proceed,
            StepResult::Absent | StepResult::Failed => Verdict::Fatal,
        },
    }
}

/// Where the update stands once `step` has ended with `result`.
pub open spec fn progress(step: SwapStep, result: StepResult) -> SwapProgress {
    match verdict(step, result) {
        Verdict::Proceed => match successor(step) {
            Some(next) => SwapProgress::Next(next),
            None => SwapProgress::Finished(SwapOutcome::Applied),
        },
        Verdict::Reject => SwapProgress::Finished(SwapOutcome::Rejected(step)),
        Verdict::Fatal => SwapProgress::Finished(SwapOutcome::Fatal(step)),
    }
}

impl SwapStep {
    /// The step that an update begins with.
    pub fn first() -> (step: SwapStep)
        ensures
            step == SwapStep::ClearStaging,
    {
        SwapStep::ClearStaging
    }

    /// The operation that the caller performs for this step.
    pub fn operation(self) -> (op: FsOperation)
        ensures
            op == operation_of(self),
    {
        match self {
            SwapStep::ClearStaging => FsOperation::Remove(Slot::Staging),
            SwapStep::CreateStaging => FsOperation::Create(Slot::Staging),
            SwapStep::CarryForward => FsOperation::Mirror {
                from: Slot::Live,
                to: Slot::Staging,
                filtered: false,
            },
            SwapStep::MirrorIncoming => FsOperation::Mirror {
                from: Slot::Incoming,
                to: Slot::Staging,
                filtered: true,
            },
            SwapStep::ClearBackup => FsOperation::Remove(Slot::Backup),
            SwapStep::MoveLiveAside => FsOperation::Rename { from: Slot::Live, to: Slot::Backup },
            SwapStep::Promote => FsOperation::Rename { from: Slot::Staging, to: Slot::Live },
        }
    }

    /// The step that follows this one, if any.
    pub fn next(self) -> (next: Option<SwapStep>)
        ensures
            next == successor(self),
    {
        match self {
            SwapStep::ClearStaging => Some(SwapStep::CreateStaging),
            SwapStep::CreateStaging => Some(SwapStep::CarryForward),
            SwapStep::CarryForward => Some(SwapStep::MirrorIncoming),
            SwapStep::MirrorIncoming => Some(SwapStep::ClearBackup),
            SwapStep::ClearBackup => Some(SwapStep::MoveLiveAside),
            SwapStep::MoveLiveAside => Some(SwapStep::Promote),
            SwapStep::Promote => None,
        }
    }
}

/// Applies the failure policy to the way `step` ended.
pub fn judge(step: SwapStep, result: StepResult) -> (v: Verdict)
    ensures
        v == verdict(step, result),
{
    match step {
        SwapStep::ClearStaging | SwapStep::CarryForward => match result {
            StepResult::Done | StepResult::Absent => Verdict::Proceed,
            StepResult::Failed => Verdict::Reject,
        },
        SwapStep::CreateStaging | SwapStep::MirrorIncoming => match result {
            StepResult::Done => Verdict::Proceed,
            StepResult::Absent | StepResult::Failed => Verdict::Reject,
        },
        SwapStep::ClearBackup => Verdict::Proceed,
        SwapStep::MoveLiveAside => match result {
            StepResult::Done | StepResult::Absent => Verdict::Proceed,
            StepResult::Failed => Verdict::Fatal,
        },
        SwapStep::Promote => match result {
            StepResult::Done => Verdict::Proceed,
            StepResult::Absent | StepResult::Failed => Verdict::Fatal,
        },
    }
}

/// Decides how the update goes on once `step` has ended with `result`.
///
/// A step is never taken twice and none is skipped: what comes next is
/// the step's successor or the end of the update.
pub fn advance(step: SwapStep, result: StepResult) -> (p: SwapProgress)
    ensures
        p == progress(step, result),
        p matches SwapProgress::Next(next) ==> successor(step) == Some(next) && steps_left(next)
            < steps_left(step),
{
    match judge(step, result) {
        Verdict::Proceed => match step.next() {
            Some(next) => SwapProgress::Next(next),
            None => SwapProgress::Finished(SwapOutcome::Applied),
        },
        Verdict::Reject => SwapProgress::Finished(SwapOutcome::Rejected(step)),
        Verdict::Fatal => SwapProgress::Finished(SwapOutcome::Fatal(step)),
    }
}

/// An update is given up only at the step that failed, and only while
/// staging is built; it is stopped for good only at the step that failed,
/// and only during the exchange.
pub proof fn lemma_failure_names_its_step(step: SwapStep, result: StepResult)
    ensures
        match progress(step, result) {
            SwapProgress::Finished(SwapOutcome::Rejected(at)) => at == step && steps_left(step) > 3,
            SwapProgress::Finished(SwapOutcome::Fatal(at)) => at == step && steps_left(step) <= 2,
            SwapProgress::Finished(SwapOutcome::Applied) => step == SwapStep::Promote,
            SwapProgress::Next(next) => successor(step) == Some(next),
        },
{
}

/// When an update is given up, no step taken so far, the failed one
/// included, is one that changes the live directory, the backup or the
/// incoming directory.
pub proof fn lemma_rejection_leaves_live_alone(step: SwapStep, result: StepResult, earlier: SwapStep)
    requires
        progress(step, result) == SwapProgress::Finished(SwapOutcome::Rejected(step)),
        steps_left(earlier) >= steps_left(step),
    ensures
        !changes(operation_of(earlier), Slot::Live),
        !changes(operation_of(earlier), Slot::Backup),
        !changes(operation_of(earlier), Slot::Incoming),
{
}

/// The directories and the outcome of an update that is taken up at
/// `step`, on directories that behave as [`performed`] says.
pub open spec fn run_from(before: Layout, step: SwapStep, ignores: Seq<Seq<char>>) -> (
    Layout,
    SwapOutcome,
)
    decreases steps_left(step),
{
    let (after, result) = performed(before, operation_of(step), ignores);
    match progress(step, result) {
        SwapProgress::Next(next) => run_from(after, next, ignores),
        SwapProgress::Finished(outcome) => (after, outcome),
    }
}

/// The directories and the outcome of a whole update.
pub open spec fn updated(before: Layout, ignores: Seq<Seq<char>>) -> (Layout, SwapOutcome) {
    run_from(before, SwapStep::ClearStaging, ignores)
}

/// The directories at the moment an update that is taken up at `step`
/// is cut off right before `stop`, or where it ends if it ends earlier.
pub open spec fn run_until(
    before: Layout,
    step: SwapStep,
    stop: SwapStep,
    ignores: Seq<Seq<char>>,
) -> Layout
    decreases steps_left(step),
{
    if step == stop {
        before
    } else {
        let (after, result) = performed(before, operation_of(step), ignores);
        match progress(step, result) {
            SwapProgress::Next(next) => run_until(after, next, stop, ignores),
            SwapProgress::Finished(_) => after,
        }
    }
}

/// The directories at the moment a whole update is cut off right before
/// `stop`.
pub open spec fn interrupted_before(before: Layout, stop: SwapStep, ignores: Seq<Seq<char>>) -> Layout {
    run_until(before, SwapStep::ClearStaging, stop, ignores)
}

/// The tree that an update builds: the live files, replaced and joined by
/// the incoming files that the ignore list lets through.
pub open spec fn new_tree(before: Layout, ignores: Seq<Seq<char>>) -> Files {
    mirrored(files_of(before.incoming), files_of(before.live), ignores)
}

/// What a whole update comes to.
///
/// Without an incoming directory the update is given up when it is to be
/// mirrored: staging holds a copy of the live files, and the live
/// directory and the backup are as before. With one the update is
/// applied: the live name holds the new tree, the backup name holds what
/// the live directory held (and does not exist if that did not), staging
/// is gone and the incoming directory is as before.
pub proof fn lemma_update_result(before: Layout, ignores: Seq<Seq<char>>)
    ensures
        before.incoming is None ==> updated(before, ignores) == (
            Layout {
                live: before.live,
                incoming: None,
                staging: Some(files_of(before.live)),
                backup: before.backup,
            },
            SwapOutcome::Rejected(SwapStep::MirrorIncoming),
        ),
        before.incoming is Some ==> updated(before, ignores) == (
            Layout {
                live: Some(new_tree(before, ignores)),
                incoming: before.incoming,
                staging: None,
                backup: before.live,
            },
            SwapOutcome::Applied,
        ),
{
    reveal_with_fuel(run_from, 8);
    let carried = mirrored(files_of(before.live), Map::empty(), Seq::empty());
    assert(carried =~= files_of(before.live));
    assert(mirrored(Map::empty(), Map::empty(), Seq::empty()) =~= Map::<Seq<char>, Seq<u8>>::empty());
}

/// Applying the same update a second time, with the incoming directory
/// and the ignore list unchanged, leaves the live directory as the first
/// application left it.
pub proof fn lemma_update_idempotent(before: Layout, ignores: Seq<Seq<char>>)
    ensures
        updated(updated(before, ignores).0, ignores).0.live == updated(before, ignores).0.live,
{
    let once = updated(before, ignores).0;
    lemma_update_result(before, ignores);
    lemma_update_result(once, ignores);
    if before.incoming is Some {
        assert(new_tree(once, ignores) =~= new_tree(before, ignores));
    }
}

/// At whatever step an update is cut off, the application's files are
/// still there: the live directory is as it was, or, where the update is
/// cut off between the two renames, the backup holds what the live
/// directory held and staging holds the whole new tree.
pub proof fn lemma_cut_off_keeps_files(before: Layout, stop: SwapStep, ignores: Seq<Seq<char>>)
    ensures
        ({
            let cut = interrupted_before(before, stop, ignores);
            ||| cut.live == before.live
            ||| {
                &&& stop == SwapStep::Promote
                &&& before.incoming is Some
                &&& cut.live is None
                &&& cut.backup == before.live
                &&& cut.staging == Some(new_tree(before, ignores))
            }
        }),
{
    reveal_with_fuel(run_until, 8);
    assert(mirrored(files_of(before.live), Map::empty(), Seq::empty()) =~= files_of(before.live));
    assert(mirrored(Map::empty(), Map::empty(), Seq::empty()) =~= Map::<Seq<char>, Seq<u8>>::empty());
}

/// An update that is cut off between the two renames leaves the backup
/// with exactly what the live directory held, and staging with the whole
/// new tree. The next update deletes both, builds staging again from the
/// incoming directory alone and is applied.
pub proof fn lemma_cut_off_between_renames(before: Layout, ignores: Seq<Seq<char>>)
    requires
        before.incoming is Some,
    ensures
        ({
            let cut = interrupted_before(before, SwapStep::Promote, ignores);
            let (after, outcome) = updated(cut, ignores);
            &&& cut.live is None
            &&& cut.backup == before.live
            &&& cut.staging == Some(new_tree(before, ignores))
            &&& cut.incoming == before.incoming
            &&& outcome == SwapOutcome::Applied
            &&& after.live == Some(mirrored(before.incoming->0, Map::empty(), ignores))
            &&& after.backup is None
        }),
{
    reveal_with_fuel(run_until, 8);
    assert(mirrored(files_of(before.live), Map::empty(), Seq::empty()) =~= files_of(before.live));
    assert(mirrored(Map::empty(), Map::empty(), Seq::empty()) =~= Map::<Seq<char>, Seq<u8>>::empty());
    let cut = interrupted_before(before, SwapStep::Promote, ignores);
    lemma_update_result(cut, ignores);
}

/// Where every file of the live directory is replaced by an incoming file
/// that the ignore list lets through, the update that follows one cut off
/// between the two renames ends with the live directory that the first
/// would have ended with.
pub proof fn lemma_recovery_after_cut_off(before: Layout, ignores: Seq<Seq<char>>)
    requires
        before.incoming is Some,
        forall|p: Seq<char>|
            #![trigger files_of(before.live).dom().contains(p)]
            files_of(before.live).dom().contains(p) ==> before.incoming->0.dom().contains(p)
                && !matches_ignore(p, ignores),
    ensures
        updated(interrupted_before(before, SwapStep::Promote, ignores), ignores).0.live == updated(
            before,
            ignores,
        ).0.live,
{
    lemma_cut_off_between_renames(before, ignores);
    lemma_update_result(before, ignores);
    assert(mirrored(before.incoming->0, Map::empty(), ignores) =~= new_tree(before, ignores));
}

/// Replaces the live directory of `ws` by the new tree, step by step.
///
/// Without an incoming directory nothing but staging is touched and the
/// update is rejected. With one, the live directory holds every incoming
/// file that the ignore list lets through and, of the files it held, those
/// that no such file replaces; the backup holds what the live directory
/// held before.
pub fn apply_update(ws: &mut Workspace, ignores: &Vec<String>) -> (outcome: SwapOutcome)
    ensures
        (final(ws)@, outcome) == updated(old(ws)@, ignores.deep_view()),
        old(ws)@.incoming is None ==> {
            &&& outcome == SwapOutcome::Rejected(SwapStep::MirrorIncoming)
            &&& final(ws)@.live == old(ws)@.live
            &&& final(ws)@.backup == old(ws)@.backup
            &&& final(ws)@.incoming is None
        },
        old(ws)@.incoming is Some ==> {
            &&& outcome == SwapOutcome::Applied
            &&& final(ws)@.live == Some(new_tree(old(ws)@, ignores.deep_view()))
            &&& final(ws)@.backup == old(ws)@.live
            &&& final(ws)@.staging is None
            &&& final(ws)@.incoming == old(ws)@.incoming
        },
{
    let mut step = SwapStep::first();
    loop
        invariant
            run_from(ws@, step, ignores.deep_view()) == updated(old(ws)@, ignores.deep_view()),
        decreases steps_left(step),
    {
        let result = ws.perform(step.operation(), ignores);
        match advance(step, result) {
            SwapProgress::Next(next) => {
                step = next;
            },
            SwapProgress::Finished(outcome) => {
                proof {
                    lemma_update_result(old(ws)@, ignores.deep_view());
                }
                return outcome;
            },
        }
    }
}

/// The characters that the staging directory's name adds to the live
/// directory's.
pub open spec fn staging_suffix() -> Seq<char> {
    seq!['_', 'n', 'e', 'w']
}

/// The characters that the backup directory's name adds to the live
/// directory's.
pub open spec fn backup_suffix() -> Seq<char> {
    seq!['_', 'o', 'l', 'd']
}

/// The name of the staging directory, a sibling of the live directory
/// `live_name`.
pub fn staging_name(live_name: &str) -> (name: String)
    ensures
        name@ == live_name@ + staging_suffix(),
{
    let mut name = live_name.to_owned();
    name.append("_new");
    proof {
        reveal_strlit("_new");
        assert("_new"@ =~= staging_suffix());
    }
    name
}

/// The name of the backup directory, a sibling of the live directory
/// `live_name`.
pub fn backup_name(live_name: &str) -> (name: String)
    ensures
        name@ == live_name@ + backup_suffix(),
{
    let mut name = live_name.to_owned();
    name.append("_old");
    proof {
        reveal_strlit("_old");
        assert("_old"@ =~= backup_suffix());
    }
    name
}

} // verus!
