//! Mirroring one directory tree into another: which entries are left out,
//! what is done with the others, and what the destination holds afterwards.

use crate::text::{list_items, normalize_separators, parse_list, starts_with, unify_separators};
use crate::tree::{DirectoryTree, Files};
use vstd::prelude::*;

verus! {

/// What an entry of the source directory is.
#[derive(Clone, Copy, Debug, PartialEq, Eq, Structural)]
pub enum EntryKind {
    Directory,
    File,
}

/// What mirroring does with one entry of the source directory.
#[derive(Clone, Copy, Debug, PartialEq, Eq, Structural)]
pub enum EntryAction {
    /// The entry is left out and reported, and with it, if it is a
    /// directory, everything below it.
    Skip,
    /// The directory is created at the destination unless it is there,
    /// and its entries are visited.
    Descend,
    /// The file is copied to the same relative path at the destination,
    /// over the file that may be there, its parent directories created as
    /// needed.
    Copy,
}

/// A relative path falls under an ignore list when, written with forward
/// slashes, it begins with one of the list's prefixes.
pub open spec fn matches_ignore(relative: Seq<char>, ignores: Seq<Seq<char>>) -> bool {
    exists|i: int|
        0 <= i < ignores.len() && (#[trigger] ignores[i]).is_prefix_of(unify_separators(relative))
}

/// The action that mirroring takes on an entry at `relative`.
pub open spec fn entry_action(
    relative: Seq<char>,
    kind: EntryKind,
    ignores: Seq<Seq<char>>,
) -> EntryAction {
    if matches_ignore(relative, ignores) {
        EntryAction::Skip
    } else if kind == EntryKind::Directory {
        EntryAction::Descend
    } else {
        EntryAction::Copy
    }
}

/// The prefixes that an ignore list names: its items, written with
/// forward slashes.
pub open spec fn ignore_prefixes(list: Seq<char>) -> Seq<Seq<char>> {
    list_items(list).map_values(|item: Seq<char>| unify_separators(item))
}

/// The destination after `source` has been mirrored into it.
///
/// Every source file that does not fall under the ignore list is in the
/// result with the source's content; every other path holds what the
/// destination held before, or nothing where it held nothing.
pub open spec fn mirrored(source: Files, dest: Files, ignores: Seq<Seq<char>>) -> Files {
    Map::new(
        |p: Seq<char>|
            dest.dom().contains(p) || (source.dom().contains(p) && !matches_ignore(p, ignores)),
        |p: Seq<char>|
            if source.dom().contains(p) && !matches_ignore(p, ignores) {
                source[p]
            } else {
                dest[p]
            },
    )
}

/// What lies below an ignored directory is ignored: a path that begins
/// with a path under the ignore list falls under the list too. So
/// leaving out a directory with all below it leaves out no file that
/// [`mirrored`] has in the result.
pub proof fn lemma_ignore_covers_subtree(
    directory: Seq<char>,
    below: Seq<char>,
    ignores: Seq<Seq<char>>,
)
    requires
        directory.is_prefix_of(below),
        matches_ignore(directory, ignores),
    ensures
        matches_ignore(below, ignores),
{
    let i = choose|i: int|
        0 <= i < ignores.len() && (#[trigger] ignores[i]).is_prefix_of(
            unify_separators(directory),
        );
    let prefix = ignores[i];
    let short = unify_separators(directory);
    let long = unify_separators(below);
    assert(prefix =~= long.subrange(0, prefix.len() as int)) by {
        assert forall|k: int| 0 <= k < prefix.len() implies prefix[k] == long[k] by {
            assert(prefix[k] == short.subrange(0, prefix.len() as int)[k]);
            assert(directory[k] == below.subrange(0, directory.len() as int)[k]);
        }
    }
    assert(ignores[i].is_prefix_of(long));
}

/// Mirroring the same source a second time changes nothing.
pub proof fn lemma_mirror_idempotent(source: Files, dest: Files, ignores: Seq<Seq<char>>)
    ensures
        mirrored(source, mirrored(source, dest, ignores), ignores) == mirrored(
            source,
            dest,
            ignores,
        ),
{
    assert(mirrored(source, mirrored(source, dest, ignores), ignores) =~= mirrored(
        source,
        dest,
        ignores,
    ));
}

/// Reads an ignore list: see [`ignore_prefixes`].
pub fn parse_ignore_list(list: &str) -> (prefixes: Vec<String>)
    ensures
        prefixes.deep_view() == ignore_prefixes(list@),
{
    let items = parse_list(list);
    let mut prefixes: Vec<String> = Vec::new();
    let mut i: usize = 0;
    while i < items.len()
        invariant
            i <= items@.len(),
            prefixes@.len() == i,
            forall|j: int|
                0 <= j < i ==> (#[trigger] prefixes@[j])@ == unify_separators(items@[j]@),
        decreases items@.len() - i,
    {
        prefixes.push(normalize_separators(items[i].as_str()));
        i += 1;
    }
    assert(prefixes.deep_view() =~= items.deep_view().map_values(
        |item: Seq<char>| unify_separators(item),
    ));
    prefixes
}

/// Tells whether `relative` falls under the ignore list.
pub fn is_ignored(relative: &str, ignores: &Vec<String>) -> (b: bool)
    ensures
        b == matches_ignore(relative@, ignores.deep_view()),
{
    let unified = normalize_separators(relative);
    let mut i: usize = 0;
    while i < ignores.len()
        invariant
            i <= ignores@.len(),
            unified@ == unify_separators(relative@),
            forall|j: int|
                0 <= j < i ==> !(#[trigger] ignores.deep_view()[j]).is_prefix_of(unified@),
        decreases ignores@.len() - i,
    {
        if starts_with(unified.as_str(), ignores[i].as_str()) {
            assert(ignores.deep_view()[i as int] == ignores@[i as int]@);
            return true;
        }
        assert(ignores.deep_view()[i as int] == ignores@[i as int]@);
        i += 1;
    }
    false
}

/// Decides what mirroring does with the entry at `relative`.
pub fn classify_entry(relative: &str, kind: EntryKind, ignores: &Vec<String>) -> (action:
    EntryAction)
    ensures
        action == entry_action(relative@, kind, ignores.deep_view()),
{
    if is_ignored(relative, ignores) {
        EntryAction::Skip
    } else {
        match kind {
            EntryKind::Directory => EntryAction::Descend,
            EntryKind::File => EntryAction::Copy,
        }
    }
}

/// Mirrors `source` into `dest`.
///
/// Files of `source` that do not fall under `ignores` are written to
/// `dest` under the same path, over what was there; nothing is ever
/// removed from `dest`.
pub fn mirror(source: &DirectoryTree, dest: &mut DirectoryTree, ignores: &Vec<String>)
    ensures
        final(dest)@ == mirrored(source@, old(dest)@, ignores.deep_view()),
        forall|p: Seq<char>|
            #![trigger final(dest)@.dom().contains(p)]
            source@.dom().contains(p) && !matches_ignore(p, ignores.deep_view())
                ==> final(dest)@.dom().contains(p) && final(dest)@[p] == source@[p],
        forall|p: Seq<char>|
            #![trigger final(dest)@.dom().contains(p)]
            old(dest)@.dom().contains(p) && !source@.dom().contains(p)
                ==> final(dest)@.dom().contains(p) && final(dest)@[p] == old(dest)@[p],
        forall|p: Seq<char>|
            #![trigger final(dest)@.dom().contains(p)]
            matches_ignore(p, ignores.deep_view()) ==> {
                &&& final(dest)@.dom().contains(p) == old(dest)@.dom().contains(p)
                &&& old(dest)@.dom().contains(p) ==> final(dest)@[p] == old(dest)@[p]
            },
        old(dest)@.dom().subset_of(final(dest)@.dom()),
{
    let paths = source.paths();
    let ghost before = dest@;
    let ghost listed = paths.deep_view();
    let mut i: usize = 0;
    while i < paths.len()
        invariant
            i <= paths@.len(),
            listed == paths.deep_view(),
            listed.to_set() == source@.dom(),
            dest@ == mirrored(source@.restrict(listed.take(i as int).to_set()), before, ignores.deep_view()),
        decreases paths@.len() - i,
    {
        let path = paths[i].as_str();
        assert(listed[i as int] == path@);
        assert(listed.to_set().contains(path@));
        let ghost seen = listed.take(i as int).to_set();
        let ghost seen_next = listed.take(i + 1).to_set();
        assert(seen_next == seen.insert(path@)) by {
            assert(listed.take(i + 1) =~= listed.take(i as int).push(path@));
            listed.take(i as int).lemma_push_to_set_commute(path@);
        }
        if !is_ignored(path, ignores) {
            match source.get(path) {
                Some(content) => {
                    let copy = content.clone();
                    assert(copy@ =~= content@);
                    dest.insert(path, copy);
                },
                None => {},
            }
        }
        assert(dest@ =~= mirrored(source@.restrict(seen_next), before, ignores.deep_view()));
        i += 1;
    }
    proof {
        assert(listed.take(paths@.len() as int) =~= listed);
        assert(source@.restrict(source@.dom()) =~= source@);
        assert(dest@ =~= mirrored(source@, before, ignores.deep_view()));
    }
}

} // verus!
