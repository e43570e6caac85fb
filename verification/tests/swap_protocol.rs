use updater::mirror::mirror;
use updater::swap::{
    advance, apply_update, backup_name, judge, staging_name, SwapOutcome, SwapProgress, SwapStep,
    Verdict,
};
use updater::tree::DirectoryTree;
use updater::workspace::{FsOperation, Slot, StepResult, Workspace};

fn tree(files: &[(&str, &str)]) -> DirectoryTree {
    let mut t = DirectoryTree::new();
    for (path, content) in files {
        t.insert(path, content.as_bytes().to_vec());
    }
    t
}

fn listing(t: &Option<DirectoryTree>) -> Option<Vec<(String, Vec<u8>)>> {
    t.as_ref().map(|t| {
        let mut all: Vec<(String, Vec<u8>)> = t
            .paths()
            .into_iter()
            .map(|p| {
                let bytes = t.get(&p).unwrap().clone();
                (p, bytes)
            })
            .collect();
        all.sort();
        all
    })
}

fn files(items: &[(&str, &str)]) -> Option<Vec<(String, Vec<u8>)>> {
    let mut all: Vec<(String, Vec<u8>)> =
        items.iter().map(|(p, c)| (p.to_string(), c.as_bytes().to_vec())).collect();
    all.sort();
    Some(all)
}

fn workspace(live: Option<DirectoryTree>, incoming: Option<DirectoryTree>) -> Workspace {
    Workspace { live, incoming, staging: None, backup: None }
}

const STEPS: [SwapStep; 7] = [
    SwapStep::ClearStaging,
    SwapStep::CreateStaging,
    SwapStep::CarryForward,
    SwapStep::MirrorIncoming,
    SwapStep::ClearBackup,
    SwapStep::MoveLiveAside,
    SwapStep::Promote,
];

#[test]
fn sibling_names_add_a_suffix() {
    assert_eq!(staging_name("resources"), "resources_new");
    assert_eq!(backup_name("resources"), "resources_old");
    assert_eq!(staging_name(""), "_new");
    assert_eq!(backup_name("app.d"), "app.d_old");
}

#[test]
fn steps_follow_each_other_in_order() {
    assert_eq!(SwapStep::first(), SwapStep::ClearStaging);
    for pair in STEPS.windows(2) {
        assert_eq!(pair[0].next(), Some(pair[1]));
        assert_eq!(advance(pair[0], StepResult::Done), SwapProgress::Next(pair[1]));
    }
    assert_eq!(SwapStep::Promote.next(), None);
    assert_eq!(
        advance(SwapStep::Promote, StepResult::Done),
        SwapProgress::Finished(SwapOutcome::Applied)
    );
}

#[test]
fn each_step_has_its_operation() {
    assert_eq!(SwapStep::ClearStaging.operation(), FsOperation::Remove(Slot::Staging));
    assert_eq!(SwapStep::CreateStaging.operation(), FsOperation::Create(Slot::Staging));
    assert_eq!(
        SwapStep::CarryForward.operation(),
        FsOperation::Mirror { from: Slot::Live, to: Slot::Staging, filtered: false }
    );
    assert_eq!(
        SwapStep::MirrorIncoming.operation(),
        FsOperation::Mirror { from: Slot::Incoming, to: Slot::Staging, filtered: true }
    );
    assert_eq!(SwapStep::ClearBackup.operation(), FsOperation::Remove(Slot::Backup));
    assert_eq!(
        SwapStep::MoveLiveAside.operation(),
        FsOperation::Rename { from: Slot::Live, to: Slot::Backup }
    );
    assert_eq!(
        SwapStep::Promote.operation(),
        FsOperation::Rename { from: Slot::Staging, to: Slot::Live }
    );
}

#[test]
fn failure_policy_table() {
    let proceed = Verdict::Proceed;
    let reject = Verdict::Reject;
    let fatal = Verdict::Fatal;
    let table = [
        (SwapStep::ClearStaging, [proceed, proceed, reject]),
        (SwapStep::CreateStaging, [proceed, reject, reject]),
        (SwapStep::CarryForward, [proceed, proceed, reject]),
        (SwapStep::MirrorIncoming, [proceed, reject, reject]),
        (SwapStep::ClearBackup, [proceed, proceed, proceed]),
        (SwapStep::MoveLiveAside, [proceed, proceed, fatal]),
        (SwapStep::Promote, [proceed, fatal, fatal]),
    ];
    for (step, row) in table {
        assert_eq!(judge(step, StepResult::Done), row[0]);
        assert_eq!(judge(step, StepResult::Absent), row[1]);
        assert_eq!(judge(step, StepResult::Failed), row[2]);
    }
}

#[test]
fn failures_end_the_update_at_their_step() {
    assert_eq!(
        advance(SwapStep::CreateStaging, StepResult::Failed),
        SwapProgress::Finished(SwapOutcome::Rejected(SwapStep::CreateStaging))
    );
    assert_eq!(
        advance(SwapStep::MirrorIncoming, StepResult::Absent),
        SwapProgress::Finished(SwapOutcome::Rejected(SwapStep::MirrorIncoming))
    );
    assert_eq!(
        advance(SwapStep::MoveLiveAside, StepResult::Failed),
        SwapProgress::Finished(SwapOutcome::Fatal(SwapStep::MoveLiveAside))
    );
    assert_eq!(
        advance(SwapStep::Promote, StepResult::Failed),
        SwapProgress::Finished(SwapOutcome::Fatal(SwapStep::Promote))
    );
    assert_eq!(
        advance(SwapStep::ClearBackup, StepResult::Failed),
        SwapProgress::Next(SwapStep::MoveLiveAside)
    );
}

#[test]
fn operations_on_the_workspace() {
    let none: Vec<String> = Vec::new();
    let mut ws = workspace(Some(tree(&[("a", "1")])), None);
    assert!(ws.holds(Slot::Live));
    assert!(!ws.holds(Slot::Staging));
    assert_eq!(ws.perform(FsOperation::Remove(Slot::Staging), &none), StepResult::Absent);
    assert_eq!(ws.perform(FsOperation::Create(Slot::Staging), &none), StepResult::Done);
    assert_eq!(listing(&ws.staging), files(&[]));
    assert_eq!(
        ws.perform(FsOperation::Mirror { from: Slot::Incoming, to: Slot::Staging, filtered: true }, &none),
        StepResult::Absent
    );
    assert_eq!(
        ws.perform(FsOperation::Mirror { from: Slot::Live, to: Slot::Staging, filtered: false }, &none),
        StepResult::Done
    );
    assert_eq!(listing(&ws.staging), files(&[("a", "1")]));
    assert_eq!(listing(&ws.live), files(&[("a", "1")]));
    assert_eq!(
        ws.perform(FsOperation::Rename { from: Slot::Staging, to: Slot::Live }, &none),
        StepResult::Failed
    );
    assert_eq!(
        ws.perform(FsOperation::Rename { from: Slot::Backup, to: Slot::Live }, &none),
        StepResult::Absent
    );
    assert_eq!(
        ws.perform(FsOperation::Rename { from: Slot::Live, to: Slot::Backup }, &none),
        StepResult::Done
    );
    assert!(!ws.holds(Slot::Live));
    assert_eq!(listing(&ws.backup), files(&[("a", "1")]));
    assert_eq!(ws.perform(FsOperation::Create(Slot::Backup), &none), StepResult::Done);
    assert_eq!(listing(&ws.backup), files(&[("a", "1")]));
    assert_eq!(ws.perform(FsOperation::Remove(Slot::Backup), &none), StepResult::Done);
    assert!(!ws.holds(Slot::Backup));
}

#[test]
fn unfiltered_mirror_takes_no_ignore_list() {
    let ignores = vec!["a".to_string()];
    let mut ws = workspace(Some(tree(&[("a", "1"), ("b", "2")])), Some(tree(&[("a", "9"), ("c", "3")])));
    ws.perform(FsOperation::Mirror { from: Slot::Live, to: Slot::Staging, filtered: false }, &ignores);
    assert_eq!(listing(&ws.staging), files(&[("a", "1"), ("b", "2")]));
    ws.perform(FsOperation::Mirror { from: Slot::Incoming, to: Slot::Staging, filtered: true }, &ignores);
    assert_eq!(listing(&ws.staging), files(&[("a", "1"), ("b", "2"), ("c", "3")]));
    ws.perform(FsOperation::Mirror { from: Slot::Staging, to: Slot::Staging, filtered: true }, &ignores);
    assert_eq!(listing(&ws.staging), files(&[("a", "1"), ("b", "2"), ("c", "3")]));
}

#[test]
fn update_replaces_live_and_keeps_backup() {
    let mut ws = workspace(
        Some(tree(&[("a.txt", "v1"), ("b.txt", "keep")])),
        Some(tree(&[("a.txt", "v2")])),
    );
    assert_eq!(apply_update(&mut ws, &Vec::new()), SwapOutcome::Applied);
    assert_eq!(listing(&ws.live), files(&[("a.txt", "v2"), ("b.txt", "keep")]));
    assert_eq!(listing(&ws.backup), files(&[("a.txt", "v1"), ("b.txt", "keep")]));
    assert_eq!(listing(&ws.incoming), files(&[("a.txt", "v2")]));
    assert!(ws.staging.is_none());
}

#[test]
fn update_without_live_directory_installs_incoming() {
    let mut ws = workspace(None, Some(tree(&[("a.txt", "v2"), ("tmp/x", "t")])));
    assert_eq!(apply_update(&mut ws, &vec!["tmp".to_string()]), SwapOutcome::Applied);
    assert_eq!(listing(&ws.live), files(&[("a.txt", "v2")]));
    assert!(ws.backup.is_none());
    assert!(ws.staging.is_none());
}

#[test]
fn update_without_incoming_is_rejected_and_live_untouched() {
    let mut ws = workspace(Some(tree(&[("a.txt", "v1")])), None);
    ws.backup = Some(tree(&[("old", "o")]));
    assert_eq!(
        apply_update(&mut ws, &Vec::new()),
        SwapOutcome::Rejected(SwapStep::MirrorIncoming)
    );
    assert_eq!(listing(&ws.live), files(&[("a.txt", "v1")]));
    assert_eq!(listing(&ws.backup), files(&[("old", "o")]));
    assert_eq!(listing(&ws.staging), files(&[("a.txt", "v1")]));
    assert!(ws.incoming.is_none());
}

#[test]
fn update_discards_stale_staging_and_backup() {
    let mut ws = workspace(Some(tree(&[("a.txt", "v1")])), Some(tree(&[("a.txt", "v2")])));
    ws.staging = Some(tree(&[("junk", "j")]));
    ws.backup = Some(tree(&[("ancient", "x")]));
    assert_eq!(apply_update(&mut ws, &Vec::new()), SwapOutcome::Applied);
    assert_eq!(listing(&ws.live), files(&[("a.txt", "v2")]));
    assert_eq!(listing(&ws.backup), files(&[("a.txt", "v1")]));
}

#[test]
fn update_applied_twice_gives_the_same_live_tree() {
    let ignores = vec!["cache".to_string()];
    let mut ws = workspace(
        Some(tree(&[("a.txt", "v1"), ("b.txt", "keep"), ("cache/c", "mine")])),
        Some(tree(&[("a.txt", "v2"), ("cache/c", "theirs"), ("n.txt", "n")])),
    );
    assert_eq!(apply_update(&mut ws, &ignores), SwapOutcome::Applied);
    let once = listing(&ws.live);
    assert_eq!(
        once,
        files(&[("a.txt", "v2"), ("b.txt", "keep"), ("cache/c", "mine"), ("n.txt", "n")])
    );
    assert_eq!(apply_update(&mut ws, &ignores), SwapOutcome::Applied);
    assert_eq!(listing(&ws.live), once);
    assert_eq!(listing(&ws.backup), once);
}

fn run_until(ws: &mut Workspace, stop: SwapStep, ignores: &Vec<String>) {
    let mut step = SwapStep::first();
    while step != stop {
        let result = ws.perform(step.operation(), ignores);
        match advance(step, result) {
            SwapProgress::Next(next) => step = next,
            SwapProgress::Finished(_) => return,
        }
    }
}

#[test]
fn cut_off_between_the_renames_keeps_the_old_tree_as_backup() {
    let none: Vec<String> = Vec::new();
    let mut ws = workspace(
        Some(tree(&[("a.txt", "v1"), ("b.txt", "keep")])),
        Some(tree(&[("a.txt", "v2")])),
    );
    run_until(&mut ws, SwapStep::Promote, &none);
    assert!(ws.live.is_none());
    assert_eq!(listing(&ws.backup), files(&[("a.txt", "v1"), ("b.txt", "keep")]));
    assert_eq!(listing(&ws.staging), files(&[("a.txt", "v2"), ("b.txt", "keep")]));

    assert_eq!(apply_update(&mut ws, &none), SwapOutcome::Applied);
    assert_eq!(listing(&ws.live), files(&[("a.txt", "v2")]));
    assert!(ws.backup.is_none());
    assert!(ws.staging.is_none());
}

#[test]
fn recovery_after_cut_off_loses_nothing_that_the_update_replaces() {
    let none: Vec<String> = Vec::new();
    let live = [("a.txt", "v1"), ("b.txt", "b1")];
    let incoming = [("a.txt", "v2"), ("b.txt", "b2"), ("c.txt", "c")];
    let mut whole = workspace(Some(tree(&live)), Some(tree(&incoming)));
    assert_eq!(apply_update(&mut whole, &none), SwapOutcome::Applied);

    let mut cut = workspace(Some(tree(&live)), Some(tree(&incoming)));
    run_until(&mut cut, SwapStep::Promote, &none);
    assert_eq!(apply_update(&mut cut, &none), SwapOutcome::Applied);
    assert_eq!(listing(&cut.live), listing(&whole.live));
}

#[test]
fn live_is_whole_at_every_cut_off_point() {
    let none: Vec<String> = Vec::new();
    let live = [("a.txt", "v1"), ("b.txt", "keep")];
    let incoming = [("a.txt", "v2")];
    for stop in STEPS {
        let mut ws = workspace(Some(tree(&live)), Some(tree(&incoming)));
        run_until(&mut ws, stop, &none);
        if stop == SwapStep::Promote {
            assert!(ws.live.is_none());
            assert_eq!(listing(&ws.backup), files(&live));
            assert_eq!(listing(&ws.staging), files(&[("a.txt", "v2"), ("b.txt", "keep")]));
        } else {
            assert_eq!(listing(&ws.live), files(&live));
        }
    }
}

#[test]
fn mirror_into_workspace_tree_matches_free_mirror() {
    let source = tree(&[("a", "1")]);
    let mut dest = tree(&[("b", "2")]);
    mirror(&source, &mut dest, &Vec::new());
    let mut ws = workspace(Some(tree(&[("a", "1")])), None);
    ws.staging = Some(tree(&[("b", "2")]));
    ws.perform(FsOperation::Mirror { from: Slot::Live, to: Slot::Staging, filtered: true }, &Vec::new());
    assert_eq!(listing(&ws.staging), listing(&Some(dest)));
}
