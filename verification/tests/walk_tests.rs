use sessionizer::{find_dirs, FsEntry, FsTree};

fn dir(name: &str, entries: Vec<FsEntry>) -> FsEntry {
    FsEntry { name: name.to_string(), node: FsTree::Dir { entries } }
}

fn file(name: &str) -> FsEntry {
    FsEntry { name: name.to_string(), node: FsTree::File }
}

fn unreadable(name: &str) -> FsEntry {
    FsEntry { name: name.to_string(), node: FsTree::Unreadable }
}

#[test]
fn walk_only_files_is_empty() {
    let tree = FsTree::Dir {
        entries: vec![file("a.txt"), file("b.txt"), file("c")],
    };
    assert_eq!(
        find_dirs(&tree, "/root", 1, 0, 5),
        Vec::<String>::new()
    );
    assert_eq!(find_dirs(&tree, "/root", 1, 2, 2), Vec::<String>::new());
}

#[test]
fn walk_empty_dir_is_empty() {
    let tree = FsTree::Dir { entries: vec![] };
    assert_eq!(find_dirs(&tree, "/x", 1, 0, 3), Vec::<String>::new());
}

#[test]
fn walk_nested_dirs_within_window() {
    // ~/work containing a/b, entries walked from depth 1
    let tree = FsTree::Dir {
        entries: vec![dir("a", vec![dir("b", vec![])])],
    };
    let got = find_dirs(&tree, "/home/u/work", 1, 0, 2);
    assert_eq!(got, vec![
        "/home/u/work/a".to_string(),
        "/home/u/work/a/b".to_string(),
    ]);
}

#[test]
fn walk_excludes_entries_at_or_below_mindepth() {
    let tree = FsTree::Dir {
        entries: vec![dir("a", vec![dir("b", vec![])])],
    };
    // entries at depth 1 are not above mindepth 1; only depth 2 is
    let got = find_dirs(&tree, "/r", 1, 1, 2);
    assert_eq!(got, vec!["/r/a/b".to_string()]);
}

#[test]
fn walk_stops_at_maxdepth() {
    let tree = FsTree::Dir {
        entries: vec![dir("a", vec![dir("b", vec![dir("c", vec![])])])],
    };
    let got = find_dirs(&tree, "/r", 1, 0, 2);
    assert_eq!(got, vec!["/r/a".to_string(), "/r/a/b".to_string()]);
}

#[test]
fn walk_depth_above_max_returns_nothing() {
    let tree = FsTree::Dir { entries: vec![dir("a", vec![])] };
    assert_eq!(find_dirs(&tree, "/r", 3, 0, 2), Vec::<String>::new());
}

#[test]
fn walk_skips_files_among_dirs() {
    let tree = FsTree::Dir {
        entries: vec![file("f1"), dir("d1", vec![]), file("f2"), dir("d2", vec![])],
    };
    let got = find_dirs(&tree, "/p", 1, 0, 1);
    assert_eq!(got, vec!["/p/d1".to_string(), "/p/d2".to_string()]);
}

#[test]
fn walk_lists_unreadable_dir_but_omits_its_subtree() {
    let tree = FsTree::Dir {
        entries: vec![unreadable("locked"), dir("open", vec![dir("inner", vec![])])],
    };
    let got = find_dirs(&tree, "/r", 1, 0, 3);
    assert_eq!(got, vec![
        "/r/locked".to_string(),
        "/r/open".to_string(),
        "/r/open/inner".to_string(),
    ]);
}

#[test]
fn walk_unreadable_root_returns_nothing() {
    let tree = FsTree::Unreadable;
    assert_eq!(find_dirs(&tree, "/r", 1, 0, 3), Vec::<String>::new());
}
