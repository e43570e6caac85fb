//! The directories of an update and the operations on them, with an
//! in-memory workspace on which the operations can be carried out.

use crate::mirror::{mirror, mirrored};
use crate::tree::{DirectoryTree, Files};
use vstd::prelude::*;

verus! {

/// The directories that an update works on.
#[derive(Clone, Copy, Debug, PartialEq, Eq, Structural)]
pub enum Slot {
    /// The resource directory that the application runs from.
    Live,
    /// The directory that holds the new files.
    Incoming,
    /// The sibling of the live directory in which the new tree is built.
    Staging,
    /// The sibling of the live directory that keeps the replaced tree.
    Backup,
}

/// One operation on the directories, for the caller to perform.
#[derive(Clone, Copy, Debug, PartialEq, Eq, Structural)]
pub enum FsOperation {
    /// Delete the directory with all that is in it.
    Remove(Slot),
    /// Create the directory; nothing changes where it is there already.
    Create(Slot),
    /// Mirror `from` into `to`. The update's ignore list applies where
    /// `filtered` is set, and no ignore list where it is not.
    Mirror { from: Slot, to: Slot, filtered: bool },
    /// Rename the directory `from` to `to`.
    Rename { from: Slot, to: Slot },
}

/// How an operation ended.
#[derive(Clone, Copy, Debug, PartialEq, Eq, Structural)]
pub enum StepResult {
    /// The operation was carried out.
    Done,
    /// The directory that the operation removes, reads or renames is not
    /// there, and nothing was changed.
    Absent,
    /// The operation was attempted and failed.
    Failed,
}

/// What the four directories hold; `None` stands for a directory that
/// does not exist.
pub struct Layout {
    pub live: Option<Files>,
    pub incoming: Option<Files>,
    pub staging: Option<Files>,
    pub backup: Option<Files>,
}

impl Layout {
    /// What the directory `slot` holds.
    pub open spec fn at(self, slot: Slot) -> Option<Files> {
        match slot {
            Slot::Live => self.live,
            Slot::Incoming => self.incoming,
            Slot::Staging => self.staging,
            Slot::Backup => self.backup,
        }
    }

    /// The layout in which `slot` holds `tree` and the other directories
    /// are as in `self`.
    pub open spec fn with(self, slot: Slot, tree: Option<Files>) -> Layout {
        match slot {
            Slot::Live => Layout { live: tree, ..self },
            Slot::Incoming => Layout { incoming: tree, ..self },
            Slot::Staging => Layout { staging: tree, ..self },
            Slot::Backup => Layout { backup: tree, ..self },
        }
    }
}

/// The files of a directory that may not exist: none where it does not.
pub open spec fn files_of(tree: Option<Files>) -> Files {
    match tree {
        Some(files) => files,
        None => Map::empty(),
    }
}

/// What an operation does to the directories, and how it ends.
///
/// - `Remove` deletes a directory that is there and reports `Absent` for
///   one that is not.
/// - `Create` makes an empty directory unless the directory is there.
/// - `Mirror` reports `Absent` where the source is not there; otherwise
///   the destination, created if need be, receives the source's files,
///   but for those under `ignores` where the operation is filtered.
/// - `Rename` reports `Absent` where the source is not there and fails
///   where the destination is; otherwise the source's tree stands under
///   the destination's name and the source is gone.
pub open spec fn performed(before: Layout, op: FsOperation, ignores: Seq<Seq<char>>) -> (
    Layout,
    StepResult,
) {
    match op {
        FsOperation::Remove(slot) => match before.at(slot) {
            Some(_) => (before.with(slot, None), StepResult::Done),
            None => (before, StepResult::Absent),
        },
        FsOperation::Create(slot) => match before.at(slot) {
            Some(_) => (before, StepResult::Done),
            None => (before.with(slot, Some(Map::empty())), StepResult::Done),
        },
        FsOperation::Mirror { from, to, filtered } => match before.at(from) {
            Some(source) => {
                let applied = if filtered {
                    ignores
                } else {
                    Seq::empty()
                };
                (
                    before.with(to, Some(mirrored(source, files_of(before.at(to)), applied))),
                    StepResult::Done,
                )
            },
            None => (before, StepResult::Absent),
        },
        FsOperation::Rename { from, to } => match before.at(from) {
            Some(tree) => if before.at(to) is Some {
                (before, StepResult::Failed)
            } else {
                (before.with(from, None).with(to, Some(tree)), StepResult::Done)
            },
            None => (before, StepResult::Absent),
        },
    }
}

/// Tells whether `op` can change the directory `slot`.
pub open spec fn changes(op: FsOperation, slot: Slot) -> bool {
    match op {
        FsOperation::Remove(target) => slot == target,
        FsOperation::Create(target) => slot == target,
        FsOperation::Mirror { from, to, filtered } => slot == to,
        FsOperation::Rename { from, to } => slot == from || slot == to,
    }
}

/// An operation leaves every directory as it was but those that it
/// changes.
pub proof fn lemma_performed_elsewhere(
    before: Layout,
    op: FsOperation,
    ignores: Seq<Seq<char>>,
    slot: Slot,
)
    requires
        !changes(op, slot),
    ensures
        performed(before, op, ignores).0.at(slot) == before.at(slot),
{
}

/// The view of a directory tree that may not exist.
pub open spec fn tree_view(tree: Option<DirectoryTree>) -> Option<Files> {
    match tree {
        Some(t) => Some(t@),
        None => None,
    }
}

/// Four directories held in memory.
pub struct Workspace {
    pub live: Option<DirectoryTree>,
    pub incoming: Option<DirectoryTree>,
    pub staging: Option<DirectoryTree>,
    pub backup: Option<DirectoryTree>,
}

impl View for Workspace {
    type V = Layout;

    open spec fn view(&self) -> Layout {
        Layout {
            live: tree_view(self.live),
            incoming: tree_view(self.incoming),
            staging: tree_view(self.staging),
            backup: tree_view(self.backup),
        }
    }
}

impl Workspace {
    /// Tells whether the directory `slot` exists.
    pub fn holds(&self, slot: Slot) -> (b: bool)
        ensures
            b == self@.at(slot).is_some(),
    {
        match slot {
            Slot::Live => self.live.is_some(),
            Slot::Incoming => self.incoming.is_some(),
            Slot::Staging => self.staging.is_some(),
            Slot::Backup => self.backup.is_some(),
        }
    }

    fn take(&mut self, slot: Slot) -> (tree: Option<DirectoryTree>)
        ensures
            tree_view(tree) == old(self)@.at(slot),
            final(self)@ == old(self)@.with(slot, None),
    {
        match slot {
            Slot::Live => self.live.take(),
            Slot::Incoming => self.incoming.take(),
            Slot::Staging => self.staging.take(),
            Slot::Backup => self.backup.take(),
        }
    }

    fn put(&mut self, slot: Slot, tree: Option<DirectoryTree>)
        ensures
            final(self)@ == old(self)@.with(slot, tree_view(tree)),
    {
        match slot {
            Slot::Live => {
                self.live = tree;
            },
            Slot::Incoming => {
                self.incoming = tree;
            },
            Slot::Staging => {
                self.staging = tree;
            },
            Slot::Backup => {
                self.backup = tree;
            },
        }
    }

    fn mirror_between(&mut self, from: Slot, to: Slot, ignores: &Vec<String>) -> (result:
        StepResult)
        ensures
            (final(self)@, result) == (match old(self)@.at(from) {
                Some(source) => (
                    old(self)@.with(
                        to,
                        Some(mirrored(source, files_of(old(self)@.at(to)), ignores.deep_view())),
                    ),
                    StepResult::Done,
                ),
                None => (old(self)@, StepResult::Absent),
            }),
    {
        let ghost before = self@;
        match self.take(from) {
            None => {
                assert(self@ == before);
                StepResult::Absent
            },
            Some(source) => {
                let mut dest = DirectoryTree::new();
                if from == to {
                    let none: Vec<String> = Vec::new();
                    assert(none.deep_view() =~= Seq::<Seq<char>>::empty());
                    mirror(&source, &mut dest, &none);
                    assert(dest@ =~= source@);
                    assert(dest@ =~= mirrored(source@, source@, ignores.deep_view()));
                } else {
                    match self.take(to) {
                        Some(tree) => {
                            dest = tree;
                        },
                        None => {},
                    }
                    mirror(&source, &mut dest, ignores);
                    self.put(from, Some(source));
                }
                self.put(to, Some(dest));
                StepResult::Done
            },
        }
    }

    /// Carries out `op` on the directories held in memory.
    pub fn perform(&mut self, op: FsOperation, ignores: &Vec<String>) -> (result: StepResult)
        ensures
            (final(self)@, result) == performed(old(self)@, op, ignores.deep_view()),
    {
        let ghost before = self@;
        match op {
            FsOperation::Remove(slot) => {
                match self.take(slot) {
                    Some(_) => StepResult::Done,
                    None => {
                        assert(self@ == before);
                        StepResult::Absent
                    },
                }
            },
            FsOperation::Create(slot) => {
                if !self.holds(slot) {
                    self.put(slot, Some(DirectoryTree::new()));
                }
                StepResult::Done
            },
            FsOperation::Mirror { from, to, filtered } => {
                if filtered {
                    self.mirror_between(from, to, ignores)
                } else {
                    let none: Vec<String> = Vec::new();
                    assert(none.deep_view() =~= Seq::<Seq<char>>::empty());
                    self.mirror_between(from, to, &none)
                }
            },
            FsOperation::Rename { from, to } => {
                if !self.holds(from) {
                    StepResult::Absent
                } else if self.holds(to) {
                    StepResult::Failed
                } else {
                    let tree = self.take(from);
                    self.put(to, tree);
                    StepResult::Done
                }
            },
        }
    }
}

} // verus!
