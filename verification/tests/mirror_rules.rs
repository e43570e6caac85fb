use updater::mirror::{
    classify_entry, is_ignored, mirror, parse_ignore_list, EntryAction, EntryKind,
};
use updater::tree::DirectoryTree;

fn strings(items: &[&str]) -> Vec<String> {
    items.iter().map(|s| s.to_string()).collect()
}

fn tree(files: &[(&str, &str)]) -> DirectoryTree {
    let mut t = DirectoryTree::new();
    for (path, content) in files {
        t.insert(path, content.as_bytes().to_vec());
    }
    t
}

fn listing(t: &DirectoryTree) -> Vec<(String, Vec<u8>)> {
    let mut all: Vec<(String, Vec<u8>)> = t
        .paths()
        .into_iter()
        .map(|p| {
            let bytes = t.get(&p).unwrap().clone();
            (p, bytes)
        })
        .collect();
    all.sort();
    all
}

fn files(items: &[(&str, &str)]) -> Vec<(String, Vec<u8>)> {
    let mut all: Vec<(String, Vec<u8>)> =
        items.iter().map(|(p, c)| (p.to_string(), c.as_bytes().to_vec())).collect();
    all.sort();
    all
}

#[test]
fn tree_insert_replaces_and_get_finds() {
    let mut t = DirectoryTree::new();
    assert_eq!(t.len(), 0);
    assert!(!t.contains("a.txt"));
    assert_eq!(t.get("a.txt"), None);
    t.insert("a.txt", b"v1".to_vec());
    t.insert("dir/b.txt", b"b".to_vec());
    assert_eq!(t.len(), 2);
    assert_eq!(t.get("a.txt"), Some(&b"v1".to_vec()));
    t.insert("a.txt", b"v2".to_vec());
    assert_eq!(t.len(), 2);
    assert_eq!(t.get("a.txt"), Some(&b"v2".to_vec()));
    assert_eq!(t.get("dir/b.txt"), Some(&b"b".to_vec()));
    assert!(t.contains("dir/b.txt"));
    assert!(!t.contains("dir"));
    let mut paths = t.paths();
    paths.sort();
    assert_eq!(paths, strings(&["a.txt", "dir/b.txt"]));
}

#[test]
fn ignore_list_is_trimmed_and_unified() {
    assert_eq!(parse_ignore_list("cache, logs\\debug ,,"), strings(&["cache", "logs/debug"]));
    assert_eq!(parse_ignore_list(""), Vec::<String>::new());
}

#[test]
fn ignore_matches_by_prefix_of_the_unified_path() {
    let ignores = strings(&["cache", "logs/debug"]);
    assert!(is_ignored("cache", &ignores));
    assert!(is_ignored("cache/x.tmp", &ignores));
    assert!(is_ignored("cache2/y", &ignores));
    assert!(is_ignored("logs/debug/a.log", &ignores));
    assert!(is_ignored("logs\\debug\\a.log", &ignores));
    assert!(!is_ignored("logs", &ignores));
    assert!(!is_ignored("logs/info.log", &ignores));
    assert!(!is_ignored("app.bin", &ignores));
    assert!(!is_ignored("data/cache", &ignores));
    assert!(!is_ignored("anything", &Vec::new()));
}

#[test]
fn entries_are_skipped_entered_or_copied() {
    let ignores = strings(&["cache", "logs/debug"]);
    assert_eq!(classify_entry("cache", EntryKind::Directory, &ignores), EntryAction::Skip);
    assert_eq!(classify_entry("cache.bin", EntryKind::File, &ignores), EntryAction::Skip);
    assert_eq!(classify_entry("logs", EntryKind::Directory, &ignores), EntryAction::Descend);
    assert_eq!(classify_entry("logs/debug", EntryKind::Directory, &ignores), EntryAction::Skip);
    assert_eq!(classify_entry("logs/info.log", EntryKind::File, &ignores), EntryAction::Copy);
    assert_eq!(classify_entry("app.bin", EntryKind::File, &ignores), EntryAction::Copy);
}

#[test]
fn what_lies_below_a_skipped_directory_is_skipped() {
    let ignores = strings(&["cache", "logs/debug"]);
    for dir in ["cache", "cache.d", "logs/debug"] {
        assert_eq!(classify_entry(dir, EntryKind::Directory, &ignores), EntryAction::Skip);
        for below in ["/x.tmp", "/deep/er/file", "\\win.dll"] {
            let path = format!("{}{}", dir, below);
            assert_eq!(classify_entry(&path, EntryKind::File, &ignores), EntryAction::Skip);
            assert!(is_ignored(&path, &ignores));
        }
    }
}

#[test]
fn ignored_prefixes_keep_files_out_of_the_result() {
    let ignores = strings(&["cache", "logs/debug"]);
    let incoming = tree(&[
        ("cache/x.tmp", "x"),
        ("logs/debug/a.log", "a"),
        ("logs/info.log", "info"),
        ("app.bin", "bin"),
    ]);
    let mut result = DirectoryTree::new();
    mirror(&incoming, &mut result, &ignores);
    assert_eq!(listing(&result), files(&[("app.bin", "bin"), ("logs/info.log", "info")]));
}

#[test]
fn mirror_overwrites_and_never_deletes() {
    let source = tree(&[("a.txt", "new"), ("sub/c.txt", "c"), ("skip/me", "no")]);
    let mut dest = tree(&[("a.txt", "old"), ("b.txt", "keep"), ("skip/me", "mine")]);
    mirror(&source, &mut dest, &strings(&["skip"]));
    assert_eq!(
        listing(&dest),
        files(&[("a.txt", "new"), ("b.txt", "keep"), ("skip/me", "mine"), ("sub/c.txt", "c")])
    );
    assert_eq!(listing(&source).len(), 3);
}

#[test]
fn mirror_of_an_empty_tree_changes_nothing() {
    let source = DirectoryTree::new();
    let mut dest = tree(&[("b.txt", "keep")]);
    mirror(&source, &mut dest, &Vec::new());
    assert_eq!(listing(&dest), files(&[("b.txt", "keep")]));
}

#[test]
fn mirror_twice_is_mirror_once() {
    let source = tree(&[("a.txt", "new"), ("sub/c.txt", "c")]);
    let mut dest = tree(&[("a.txt", "old"), ("b.txt", "keep")]);
    mirror(&source, &mut dest, &Vec::new());
    let once = listing(&dest);
    mirror(&source, &mut dest, &Vec::new());
    assert_eq!(listing(&dest), once);
}
