//! An in-memory directory tree: the files below a directory, each under
//! its path relative to that directory. The directories in between are
//! those that the paths of the files pass through; a directory without
//! files below it has no place in the tree.

use crate::text::same_text;
use vstd::prelude::*;

verus! {

/// What a directory tree is, mathematically: a finite map from the
/// relative path of each file to the bytes it holds.
pub type Files = Map<Seq<char>, Seq<u8>>;

/// One file of a tree.
struct FileEntry {
    path: String,
    content: Vec<u8>,
}

/// The files below one directory.
///
/// No path occurs twice; the order in which files were added is not part
/// of the tree's value.
pub struct DirectoryTree {
    entries: Vec<FileEntry>,
}

spec fn distinct_paths(es: Seq<FileEntry>) -> bool {
    forall|i: int, j: int|
        0 <= i < j < es.len() ==> (#[trigger] es[i]).path@ != (#[trigger] es[j]).path@
}

spec fn entries_map(es: Seq<FileEntry>) -> Files
    decreases es.len(),
{
    if es.len() == 0 {
        Map::empty()
    } else {
        entries_map(es.drop_last()).insert(es.last().path@, es.last().content@)
    }
}

spec fn has_path(es: Seq<FileEntry>, path: Seq<char>) -> bool {
    exists|i: int| 0 <= i < es.len() && (#[trigger] es[i]).path@ == path
}

proof fn lemma_entries_map_dom(es: Seq<FileEntry>)
    ensures
        entries_map(es).dom().finite(),
        forall|p: Seq<char>| entries_map(es).dom().contains(p) <==> has_path(es, p),
    decreases es.len(),
{
    if es.len() > 0 {
        let init = es.drop_last();
        lemma_entries_map_dom(init);
        assert forall|p: Seq<char>| entries_map(es).dom().contains(p) <==> has_path(
            es,
            p,
        ) by {
            if has_path(init, p) {
                let i = choose|i: int| 0 <= i < init.len() && (#[trigger] init[i]).path@ == p;
                assert(es[i].path@ == p);
            }
            if has_path(es, p) {
                let i = choose|i: int| 0 <= i < es.len() && (#[trigger] es[i]).path@ == p;
                if i < es.len() - 1 {
                    assert(init[i].path@ == p);
                }
            }
        }
    }
}

proof fn lemma_entries_map_value(es: Seq<FileEntry>, i: int)
    requires
        distinct_paths(es),
        0 <= i < es.len(),
    ensures
        entries_map(es).dom().contains(es[i].path@),
        entries_map(es)[es[i].path@] == es[i].content@,
    decreases es.len(),
{
    if i < es.len() - 1 {
        let init = es.drop_last();
        assert(init[i] == es[i]);
        lemma_entries_map_value(init, i);
    }
}

proof fn lemma_entries_map_len(es: Seq<FileEntry>)
    requires
        distinct_paths(es),
    ensures
        entries_map(es).dom().finite(),
        entries_map(es).dom().len() == es.len(),
    decreases es.len(),
{
    lemma_entries_map_dom(es);
    if es.len() > 0 {
        let init = es.drop_last();
        lemma_entries_map_len(init);
        lemma_entries_map_dom(init);
        if has_path(init, es.last().path@) {
            let i = choose|i: int|
                0 <= i < init.len() && (#[trigger] init[i]).path@ == es.last().path@;
            assert(es[i].path@ == es[es.len() - 1].path@);
        }
    }
}

proof fn lemma_entries_map_update(es: Seq<FileEntry>, i: int, e: FileEntry)
    requires
        distinct_paths(es),
        0 <= i < es.len(),
        e.path@ == es[i].path@,
    ensures
        distinct_paths(es.update(i, e)),
        entries_map(es.update(i, e)) == entries_map(es).insert(e.path@, e.content@),
    decreases es.len(),
{
    let after = es.update(i, e);
    assert forall|a: int, b: int| 0 <= a < b < after.len() implies (#[trigger] after[a]).path@ != (
    #[trigger] after[b]).path@ by {
        assert(after[a].path@ == es[a].path@);
        assert(after[b].path@ == es[b].path@);
    }
    if i == es.len() - 1 {
        assert(after.drop_last() =~= es.drop_last());
        assert(entries_map(after) =~= entries_map(es).insert(e.path@, e.content@));
    } else {
        let init = es.drop_last();
        assert(init[i] == es[i]);
        lemma_entries_map_update(init, i, e);
        assert(after.drop_last() =~= init.update(i, e));
        assert(after.last() == es.last());
        assert(es[i].path@ != es[es.len() - 1].path@);
        assert(entries_map(after) =~= entries_map(es).insert(e.path@, e.content@));
    }
}

impl View for DirectoryTree {
    type V = Files;

    closed spec fn view(&self) -> Files {
        entries_map(self.entries@)
    }
}

impl DirectoryTree {
    #[verifier::type_invariant]
    spec fn distinct(self) -> bool {
        distinct_paths(self.entries@)
    }

    /// A tree without files.
    pub fn new() -> (tree: DirectoryTree)
        ensures
            tree@ == Files::empty(),
    {
        DirectoryTree { entries: Vec::new() }
    }

    /// The number of files.
    pub fn len(&self) -> (n: usize)
        ensures
            self@.dom().finite(),
            n == self@.dom().len(),
    {
        proof {
            use_type_invariant(self);
            lemma_entries_map_len(self.entries@);
        }
        self.entries.len()
    }

    fn position(&self, path: &str) -> (at: Option<usize>)
        ensures
            match at {
                Some(i) => i < self.entries@.len() && self.entries@[i as int].path@ == path@,
                None => !has_path(self.entries@, path@),
            },
    {
        let mut i: usize = 0;
        while i < self.entries.len()
            invariant
                i <= self.entries@.len(),
                forall|j: int| 0 <= j < i ==> (#[trigger] self.entries@[j]).path@ != path@,
            decreases self.entries@.len() - i,
        {
            if same_text(self.entries[i].path.as_str(), path) {
                return Some(i);
            }
            i += 1;
        }
        None
    }

    /// Tells whether the tree holds a file at `path`.
    pub fn contains(&self, path: &str) -> (b: bool)
        ensures
            b == self@.dom().contains(path@),
    {
        let found = self.position(path);
        proof {
            lemma_entries_map_dom(self.entries@);
            if let Some(i) = found {
                assert(has_path(self.entries@, self.entries@[i as int].path@));
            }
        }
        found.is_some()
    }

    /// The content of the file at `path`, if there is one.
    pub fn get(&self, path: &str) -> (content: Option<&Vec<u8>>)
        ensures
            match content {
                Some(bytes) => self@.dom().contains(path@) && bytes@ == self@[path@],
                None => !self@.dom().contains(path@),
            },
    {
        proof {
            use_type_invariant(self);
            lemma_entries_map_dom(self.entries@);
        }
        match self.position(path) {
            Some(i) => {
                proof {
                    lemma_entries_map_value(self.entries@, i as int);
                }
                Some(&self.entries[i].content)
            },
            None => None,
        }
    }

    /// The paths of all files, each once, in no particular order.
    pub fn paths(&self) -> (paths: Vec<String>)
        ensures
            paths.deep_view().no_duplicates(),
            paths.deep_view().to_set() == self@.dom(),
    {
        proof {
            use_type_invariant(self);
        }
        let mut paths: Vec<String> = Vec::new();
        let mut i: usize = 0;
        while i < self.entries.len()
            invariant
                i <= self.entries@.len(),
                paths@.len() == i,
                forall|j: int| 0 <= j < i ==> (#[trigger] paths@[j])@ == self.entries@[j].path@,
            decreases self.entries@.len() - i,
        {
            paths.push(self.entries[i].path.clone());
            i += 1;
        }
        proof {
            let listed = paths.deep_view();
            lemma_entries_map_dom(self.entries@);
            assert forall|a: int, b: int| 0 <= a < listed.len() && 0 <= b < listed.len() && a
                != b implies listed[a] != listed[b] by {
                assert(listed[a] == self.entries@[a].path@);
                assert(listed[b] == self.entries@[b].path@);
            }
            assert forall|p: Seq<char>| listed.to_set().contains(p) <==> self@.dom().contains(
                p,
            ) by {
                if listed.to_set().contains(p) {
                    let j = choose|j: int| 0 <= j < listed.len() && listed[j] == p;
                    assert(self.entries@[j].path@ == p);
                }
                if has_path(self.entries@, p) {
                    let j = choose|j: int|
                        0 <= j < self.entries@.len() && (#[trigger] self.entries@[j]).path@ == p;
                    assert(listed[j] == p);
                }
            }
            assert(listed.to_set() =~= self@.dom());
        }
        paths
    }

    /// Writes the file at `path`, replacing the file that was there.
    pub fn insert(&mut self, path: &str, content: Vec<u8>)
        ensures
            final(self)@ == old(self)@.insert(path@, content@),
    {
        proof {
            use_type_invariant(&*self);
            lemma_entries_map_dom(self.entries@);
        }
        let entry = FileEntry { path: path.to_owned(), content };
        let found = self.position(path);
        let mut entries: Vec<FileEntry> = Vec::new();
        std::mem::swap(&mut entries, &mut self.entries);
        match found {
            Some(i) => {
                proof {
                    lemma_entries_map_update(entries@, i as int, entry);
                }
                entries.set(i, entry);
            },
            None => {
                proof {
                    let after = entries@.push(entry);
                    assert(after.drop_last() =~= entries@);
                    assert forall|a: int, b: int| 0 <= a < b < after.len() implies (
                    #[trigger] after[a]).path@ != (#[trigger] after[b]).path@ by {
                        assert(after[a] == entries@[a]);
                        if b < entries@.len() {
                            assert(after[b] == entries@[b]);
                        }
                    }
                }
                entries.push(entry);
            },
        }
        self.entries = entries;
    }
}

} // verus!
