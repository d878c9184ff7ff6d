use sessionizer::{aggregate, concat_str, join_lines, split_lines, str_eq, Directory, FsEntry, FsTree};

fn dir(name: &str, entries: Vec<FsEntry>) -> FsEntry {
    FsEntry { name: name.to_string(), node: FsTree::Dir { entries } }
}

fn root_cfg(name: &str, mindepth: i32, maxdepth: i32) -> Directory {
    Directory { name: name.to_string(), mindepth, maxdepth }
}

#[test]
fn aggregate_keeps_root_then_session_order() {
    // roots [A, B], sessions [S1, S2]: walk(A) ++ walk(B) ++ [S1, S2]
    let roots = vec![root_cfg("~/a", 0, 1), root_cfg("/srv/b", 0, 1)];
    let trees = vec![
        FsTree::Dir { entries: vec![dir("one", vec![]), dir("two", vec![])] },
        FsTree::Dir { entries: vec![dir("three", vec![])] },
    ];
    let sessions = vec!["s1".to_string(), "s2".to_string()];
    let got = aggregate("/home/u", &roots, &trees, &sessions);
    assert_eq!(got, vec![
        "/home/u/a/one".to_string(),
        "/home/u/a/two".to_string(),
        "/srv/b/three".to_string(),
        "s1".to_string(),
        "s2".to_string(),
    ]);
}

#[test]
fn aggregate_does_not_deduplicate() {
    // a walked path that textually equals a session name appears twice
    let roots = vec![root_cfg("/r", 0, 1)];
    let trees = vec![FsTree::Dir { entries: vec![dir("db", vec![])] }];
    let sessions = vec!["/r/db".to_string()];
    let got = aggregate("/home/u", &roots, &trees, &sessions);
    assert_eq!(got, vec!["/r/db".to_string(), "/r/db".to_string()]);
}

#[test]
fn aggregate_of_nothing_is_empty() {
    let got = aggregate("/home/u", &vec![], &vec![], &vec![]);
    assert_eq!(got, Vec::<String>::new());
}

#[test]
fn end_to_end_home_root_walk() {
    // a configured root ~/work holding work/a/b, walked from depth 1
    let roots = vec![root_cfg("~/work", 0, 2)];
    let trees = vec![FsTree::Dir { entries: vec![dir("a", vec![dir("b", vec![])])] }];
    let got = aggregate("/home/u", &roots, &trees, &vec![]);
    assert_eq!(got, vec![
        "/home/u/work/a".to_string(),
        "/home/u/work/a/b".to_string(),
    ]);
}

#[test]
fn concat_str_concatenates() {
    assert_eq!(concat_str("ab", "cd"), "abcd");
    assert_eq!(concat_str("", "x"), "x");
    assert_eq!(concat_str("x", ""), "x");
}

#[test]
fn str_eq_compares_contents() {
    assert!(str_eq("abc", "abc"));
    assert!(!str_eq("abc", "abd"));
    assert!(!str_eq("abc", "ab"));
    assert!(str_eq("", ""));
}

#[test]
fn join_lines_interleaves_newlines() {
    assert_eq!(join_lines(&vec![]), "");
    assert_eq!(join_lines(&vec!["a".to_string()]), "a");
    assert_eq!(
        join_lines(&vec!["a".to_string(), "b".to_string(), "c".to_string()]),
        "a\nb\nc"
    );
}

#[test]
fn split_lines_drops_trailing_newline_piece() {
    assert_eq!(split_lines("%1\n%2\n"), vec!["%1".to_string(), "%2".to_string()]);
    assert_eq!(split_lines("%1\n%2"), vec!["%1".to_string(), "%2".to_string()]);
    assert_eq!(split_lines(""), Vec::<String>::new());
    assert_eq!(split_lines("\n"), vec!["".to_string()]);
    assert_eq!(split_lines("a\n\nb"), vec![
        "a".to_string(),
        "".to_string(),
        "b".to_string(),
    ]);
}
