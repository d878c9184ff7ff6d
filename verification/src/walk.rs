//! The directory walker. The filesystem is modeled as a tree of named
//! entries: a file, a directory whose entries could be read, or a directory
//! whose entries could not (permissions, a race with deletion). The caller
//! snapshots the real filesystem into this tree and the walk itself — which
//! entries are selectable under a depth window — is verified here.

use vstd::prelude::*;
use vstd::string::*;
use crate::strutil::concat_str;

verus! {

/// One directory entry: its name and what it holds.
pub struct FsEntry {
    pub name: String,
    pub node: FsTree,
}

/// What a filesystem name points at.
pub enum FsTree {
    /// Anything that is not a directory.
    File,
    /// A directory whose entries could not be read.
    Unreadable,
    /// A directory with its entries, in filesystem read order.
    Dir { entries: Vec<FsEntry> },
}

/// The entries of a directory node; empty for the other nodes.
pub open spec fn entries_of(tree: FsTree) -> Seq<FsEntry> {
    match tree {
        FsTree::Dir { entries } => entries@,
        _ => Seq::empty(),
    }
}

/// The path of an entry directly under `path`.
pub open spec fn spec_child_path(path: Seq<char>, name: Seq<char>) -> Seq<char> {
    path + "/"@ + name
}

/// The paths the walk returns for the subtree `tree` rooted at `path`, where
/// the entries of `tree` sit at depth `depth`: each directory entry at a
/// depth above `mindepth` is listed, and the walk descends until it has
/// listed entries at `maxdepth`.
pub open spec fn spec_walk(
    tree: FsTree,
    path: Seq<char>,
    depth: int,
    mindepth: int,
    maxdepth: int,
) -> Seq<Seq<char>>
    decreases maxdepth - depth + 1, 0int,
{
    if depth > maxdepth {
        Seq::empty()
    } else {
        match tree {
            FsTree::Dir { entries } => spec_walk_entries(
                entries@,
                0,
                path,
                depth,
                mindepth,
                maxdepth,
            ),
            _ => Seq::empty(),
        }
    }
}

/// The paths contributed by the entries from index `i` on: for a directory
/// entry, its own path when `depth > mindepth`, then its subtree unless
/// `depth >= maxdepth`, then the following siblings.
pub open spec fn spec_walk_entries(
    entries: Seq<FsEntry>,
    i: int,
    path: Seq<char>,
    depth: int,
    mindepth: int,
    maxdepth: int,
) -> Seq<Seq<char>>
    decreases maxdepth - depth, entries.len() - i,
{
    if i < 0 || i >= entries.len() || depth > maxdepth {
        Seq::empty()
    } else {
        let e = entries[i];
        let rest = spec_walk_entries(entries, i + 1, path, depth, mindepth, maxdepth);
        match e.node {
            FsTree::File => rest,
            _ => {
                let child = spec_child_path(path, e.name@);
                let included: Seq<Seq<char>> = if depth > mindepth {
                    seq![child]
                } else {
                    Seq::empty()
                };
                let sub: Seq<Seq<char>> = if depth >= maxdepth {
                    Seq::empty()
                } else {
                    spec_walk(e.node, child, depth + 1, mindepth, maxdepth)
                };
                included + sub + rest
            },
        }
    }
}

fn join_child(parent: &str, name: &str) -> (r: String)
    ensures
        r@ == spec_child_path(parent@, name@),
{
    let a = concat_str(parent, "/");
    a.concat(name)
}

/// Walks the modeled subtree `tree` rooted at `path_str`, whose entries sit
/// at depth `depth`, and returns the selectable directory paths in order.
pub fn find_dirs(tree: &FsTree, path_str: &str, depth: i32, mindepth: i32, maxdepth: i32) -> (r:
    Vec<String>)
    ensures
        r.deep_view() == spec_walk(
            *tree,
            path_str@,
            depth as int,
            mindepth as int,
            maxdepth as int,
        ),
    decreases maxdepth - depth,
{
    let mut r: Vec<String> = Vec::new();
    proof {
        assert(r.deep_view() =~= Seq::<Seq<char>>::empty());
    }
    if depth > maxdepth {
        return r;
    }
    match tree {
        FsTree::Dir { entries } => {
            let ghost total = spec_walk_entries(
                entries@,
                0,
                path_str@,
                depth as int,
                mindepth as int,
                maxdepth as int,
            );
            let n = entries.len();
            let mut i: usize = 0;
            while i < n
                invariant
                    n == entries@.len(),
                    i <= n,
                    depth <= maxdepth,
                    r.deep_view() + spec_walk_entries(
                        entries@,
                        i as int,
                        path_str@,
                        depth as int,
                        mindepth as int,
                        maxdepth as int,
                    ) == total,
                decreases n - i,
            {
                let ghost before = r.deep_view();
                let ghost rest = spec_walk_entries(
                    entries@,
                    i + 1,
                    path_str@,
                    depth as int,
                    mindepth as int,
                    maxdepth as int,
                );
                let e = &entries[i];
                match &e.node {
                    FsTree::File => {},
                    _ => {
                        let child = join_child(path_str, e.name.as_str());
                        let ghost included: Seq<Seq<char>> = if depth > mindepth {
                            seq![child@]
                        } else {
                            Seq::empty()
                        };
                        if depth > mindepth {
                            r.push(child.clone());
                            proof {
                                assert(r.deep_view() =~= before + included);
                            }
                        } else {
                            proof {
                                assert(r.deep_view() =~= before + included);
                            }
                        }
                        let ghost mid = r.deep_view();
                        if depth < maxdepth {
                            let mut sub = find_dirs(&e.node, child.as_str(), depth + 1, mindepth, maxdepth);
                            let ghost subv = sub.deep_view();
                            r.append(&mut sub);
                            proof {
                                assert(r.deep_view() =~= mid + subv);
                            }
                        } else {
                            proof {
                                assert(r.deep_view() =~= mid + Seq::<Seq<char>>::empty());
                            }
                        }
                        proof {
                            assert(r.deep_view() + rest =~= before + spec_walk_entries(
                                entries@,
                                i as int,
                                path_str@,
                                depth as int,
                                mindepth as int,
                                maxdepth as int,
                            ));
                        }
                    },
                }
                i = i + 1;
            }
            proof {
                assert(spec_walk_entries(
                    entries@,
                    n as int,
                    path_str@,
                    depth as int,
                    mindepth as int,
                    maxdepth as int,
                ) =~= Seq::<Seq<char>>::empty());
                assert(r.deep_view() =~= r.deep_view() + Seq::<Seq<char>>::empty());
            }
            r
        },
        _ => r,
    }
}

/// Law: walking a node that holds no subdirectory — a plain file, an
/// unreadable directory, or a directory of files only — yields nothing,
/// whatever the depth window.
pub proof fn lemma_walk_only_files(
    tree: FsTree,
    path: Seq<char>,
    depth: int,
    mindepth: int,
    maxdepth: int,
)
    requires
        forall|k: int| 0 <= k < entries_of(tree).len() ==> (#[trigger] entries_of(tree)[k]).node is File,
    ensures
        spec_walk(tree, path, depth, mindepth, maxdepth) == Seq::<Seq<char>>::empty(),
{
    match tree {
        FsTree::Dir { entries } => {
            assert forall|k: int| 0 <= k < entries@.len() implies (#[trigger] entries@[k]).node is File by {
                assert(entries_of(tree)[k].node is File);
            }
            lemma_walk_entries_only_files(entries@, 0, path, depth, mindepth, maxdepth);
        },
        _ => {},
    }
}

proof fn lemma_walk_entries_only_files(
    entries: Seq<FsEntry>,
    i: int,
    path: Seq<char>,
    depth: int,
    mindepth: int,
    maxdepth: int,
)
    requires
        forall|k: int| 0 <= k < entries.len() ==> (#[trigger] entries[k]).node is File,
    ensures
        spec_walk_entries(entries, i, path, depth, mindepth, maxdepth) == Seq::<Seq<char>>::empty(),
    decreases entries.len() - i,
{
    if 0 <= i && i < entries.len() && depth <= maxdepth {
        lemma_walk_entries_only_files(entries, i + 1, path, depth, mindepth, maxdepth);
    }
}

/// Law: an entry naming an unreadable directory contributes at most its own
/// path; its contents are omitted and the walk goes on with the remaining
/// siblings. (The walk is total: no input tree makes it fail.)
pub proof fn lemma_walk_skips_unreadable(
    entries: Seq<FsEntry>,
    i: int,
    path: Seq<char>,
    depth: int,
    mindepth: int,
    maxdepth: int,
)
    requires
        0 <= i < entries.len(),
        entries[i].node is Unreadable,
        depth <= maxdepth,
    ensures
        spec_walk_entries(entries, i, path, depth, mindepth, maxdepth) == (if depth > mindepth {
            seq![spec_child_path(path, entries[i].name@)]
        } else {
            Seq::<Seq<char>>::empty()
        }) + spec_walk_entries(entries, i + 1, path, depth, mindepth, maxdepth),
{
    let child = spec_child_path(path, entries[i].name@);
    let rest = spec_walk_entries(entries, i + 1, path, depth, mindepth, maxdepth);
    let included: Seq<Seq<char>> = if depth > mindepth {
        seq![child]
    } else {
        Seq::empty()
    };
    assert(spec_walk(entries[i].node, child, depth + 1, mindepth, maxdepth)
        == Seq::<Seq<char>>::empty());
    assert(included + Seq::<Seq<char>>::empty() + rest =~= included + rest);
}

/// The walk with each returned path paired with the depth it was found at:
/// the same traversal as `spec_walk`, recording `depth` beside each path.
pub open spec fn spec_walk_depths(
    tree: FsTree,
    path: Seq<char>,
    depth: int,
    mindepth: int,
    maxdepth: int,
) -> Seq<(Seq<char>, int)>
    decreases maxdepth - depth + 1, 0int,
{
    if depth > maxdepth {
        Seq::empty()
    } else {
        match tree {
            FsTree::Dir { entries } => spec_walk_entries_depths(
                entries@,
                0,
                path,
                depth,
                mindepth,
                maxdepth,
            ),
            _ => Seq::empty(),
        }
    }
}

pub open spec fn spec_walk_entries_depths(
    entries: Seq<FsEntry>,
    i: int,
    path: Seq<char>,
    depth: int,
    mindepth: int,
    maxdepth: int,
) -> Seq<(Seq<char>, int)>
    decreases maxdepth - depth, entries.len() - i,
{
    if i < 0 || i >= entries.len() || depth > maxdepth {
        Seq::empty()
    } else {
        let e = entries[i];
        let rest = spec_walk_entries_depths(entries, i + 1, path, depth, mindepth, maxdepth);
        match e.node {
            FsTree::File => rest,
            _ => {
                let child = spec_child_path(path, e.name@);
                let included: Seq<(Seq<char>, int)> = if depth > mindepth {
                    seq![(child, depth)]
                } else {
                    Seq::empty()
                };
                let sub: Seq<(Seq<char>, int)> = if depth >= maxdepth {
                    Seq::empty()
                } else {
                    spec_walk_depths(e.node, child, depth + 1, mindepth, maxdepth)
                };
                included + sub + rest
            },
        }
    }
}

/// Law: the walk is the depth-annotated walk with the depths dropped.
pub proof fn lemma_walk_is_annotated_walk(
    tree: FsTree,
    path: Seq<char>,
    depth: int,
    mindepth: int,
    maxdepth: int,
)
    ensures
        spec_walk(tree, path, depth, mindepth, maxdepth) == spec_walk_depths(
            tree,
            path,
            depth,
            mindepth,
            maxdepth,
        ).map_values(|pd: (Seq<char>, int)| pd.0),
    decreases maxdepth - depth + 1, 0int,
{
    if depth > maxdepth {
        assert(Seq::<(Seq<char>, int)>::empty().map_values(|pd: (Seq<char>, int)| pd.0)
            =~= Seq::<Seq<char>>::empty());
    } else {
        match tree {
            FsTree::Dir { entries } => {
                lemma_walk_entries_is_annotated(entries@, 0, path, depth, mindepth, maxdepth);
            },
            _ => {
                assert(Seq::<(Seq<char>, int)>::empty().map_values(|pd: (Seq<char>, int)| pd.0)
                    =~= Seq::<Seq<char>>::empty());
            },
        }
    }
}

proof fn lemma_walk_entries_is_annotated(
    entries: Seq<FsEntry>,
    i: int,
    path: Seq<char>,
    depth: int,
    mindepth: int,
    maxdepth: int,
)
    ensures
        spec_walk_entries(entries, i, path, depth, mindepth, maxdepth) == spec_walk_entries_depths(
            entries,
            i,
            path,
            depth,
            mindepth,
            maxdepth,
        ).map_values(|pd: (Seq<char>, int)| pd.0),
    decreases maxdepth - depth, entries.len() - i,
{
    let f = |pd: (Seq<char>, int)| pd.0;
    if i < 0 || i >= entries.len() || depth > maxdepth {
        assert(Seq::<(Seq<char>, int)>::empty().map_values(f) =~= Seq::<Seq<char>>::empty());
    } else {
        let e = entries[i];
        lemma_walk_entries_is_annotated(entries, i + 1, path, depth, mindepth, maxdepth);
        match e.node {
            FsTree::File => {},
            _ => {
                let child = spec_child_path(path, e.name@);
                let included: Seq<(Seq<char>, int)> = if depth > mindepth {
                    seq![(child, depth)]
                } else {
                    Seq::empty()
                };
                let sub: Seq<(Seq<char>, int)> = if depth >= maxdepth {
                    Seq::empty()
                } else {
                    spec_walk_depths(e.node, child, depth + 1, mindepth, maxdepth)
                };
                let rest = spec_walk_entries_depths(entries, i + 1, path, depth, mindepth, maxdepth);
                if depth < maxdepth {
                    lemma_walk_is_annotated_walk(e.node, child, depth + 1, mindepth, maxdepth);
                }
                assert((included + sub + rest).map_values(f) =~= included.map_values(f)
                    + sub.map_values(f) + rest.map_values(f));
                assert(included.map_values(f) =~= (if depth > mindepth {
                    seq![child]
                } else {
                    Seq::<Seq<char>>::empty()
                }));
                assert(sub.map_values(f) =~= (if depth >= maxdepth {
                    Seq::<Seq<char>>::empty()
                } else {
                    spec_walk(e.node, child, depth + 1, mindepth, maxdepth)
                }));
            },
        }
    }
}

/// Law: every path the walk returns was found at a depth strictly above
/// `mindepth` and no deeper than `maxdepth`; in particular nothing below
/// `maxdepth` is ever returned.
pub proof fn lemma_walk_depth_window(
    tree: FsTree,
    path: Seq<char>,
    depth: int,
    mindepth: int,
    maxdepth: int,
)
    ensures
        forall|j: int|
            0 <= j < spec_walk_depths(tree, path, depth, mindepth, maxdepth).len() ==> mindepth
                < (#[trigger] spec_walk_depths(tree, path, depth, mindepth, maxdepth)[j]).1
                <= maxdepth,
    decreases maxdepth - depth + 1, 0int,
{
    let wd = spec_walk_depths(tree, path, depth, mindepth, maxdepth);
    if depth <= maxdepth {
        match tree {
            FsTree::Dir { entries } => {
                lemma_walk_entries_depth_window(entries@, 0, path, depth, mindepth, maxdepth);
                let wde = spec_walk_entries_depths(entries@, 0, path, depth, mindepth, maxdepth);
                assert forall|j: int| 0 <= j < wd.len() implies mindepth < (#[trigger] wd[j]).1
                    <= maxdepth by {
                    assert(wd[j] == wde[j]);
                }
            },
            _ => {},
        }
    }
}

proof fn lemma_walk_entries_depth_window(
    entries: Seq<FsEntry>,
    i: int,
    path: Seq<char>,
    depth: int,
    mindepth: int,
    maxdepth: int,
)
    ensures
        forall|j: int|
            0 <= j < spec_walk_entries_depths(entries, i, path, depth, mindepth, maxdepth).len()
                ==> mindepth < (#[trigger] spec_walk_entries_depths(
                entries,
                i,
                path,
                depth,
                mindepth,
                maxdepth,
            )[j]).1 <= maxdepth,
    decreases maxdepth - depth, entries.len() - i,
{
    if i < 0 || i >= entries.len() || depth > maxdepth {
    } else {
        let e = entries[i];
        let wd = spec_walk_entries_depths(entries, i, path, depth, mindepth, maxdepth);
        let rest = spec_walk_entries_depths(entries, i + 1, path, depth, mindepth, maxdepth);
        lemma_walk_entries_depth_window(entries, i + 1, path, depth, mindepth, maxdepth);
        match e.node {
            FsTree::File => {
                assert forall|j: int| 0 <= j < wd.len() implies mindepth < (#[trigger] wd[j]).1
                    <= maxdepth by {
                    assert(wd[j] == rest[j]);
                }
            },
            _ => {
                let child = spec_child_path(path, e.name@);
                let included: Seq<(Seq<char>, int)> = if depth > mindepth {
                    seq![(child, depth)]
                } else {
                    Seq::empty()
                };
                let sub: Seq<(Seq<char>, int)> = if depth >= maxdepth {
                    Seq::empty()
                } else {
                    spec_walk_depths(e.node, child, depth + 1, mindepth, maxdepth)
                };
                if depth < maxdepth {
                    lemma_walk_depth_window(e.node, child, depth + 1, mindepth, maxdepth);
                }
                assert(wd == included + sub + rest);
                assert forall|j: int| 0 <= j < wd.len() implies mindepth < (#[trigger] wd[j]).1
                    <= maxdepth by {
                    if j < included.len() {
                        assert(wd[j] == included[j]);
                    } else if j < included.len() + sub.len() {
                        assert(wd[j] == sub[j - included.len()]);
                    } else {
                        assert(wd[j] == rest[j - included.len() - sub.len()]);
                    }
                }
            },
        }
    }
}

} // verus!
