//! The candidate aggregator: the walks of all search roots, in configuration
//! order, followed by the configured session names, in configuration order —
//! flat, order-preserving, with no deduplication.

use vstd::prelude::*;
use vstd::string::*;
use crate::config::Directory;
use crate::paths::{expand_home, spec_expand_home};
use crate::walk::{find_dirs, spec_walk, FsTree};

verus! {

/// The walks of the search roots from index `i` on, concatenated: each root
/// is walked below its home-expanded path, its entries starting at depth 1,
/// under its own depth window.
pub open spec fn spec_aggregate_walks(
    directories: Seq<Directory>,
    trees: Seq<FsTree>,
    home: Seq<char>,
    i: int,
) -> Seq<Seq<char>>
    decreases directories.len() - i,
{
    if i < 0 || i >= directories.len() {
        Seq::empty()
    } else {
        spec_walk(
            trees[i],
            spec_expand_home(home, directories[i].name@),
            1,
            directories[i].mindepth as int,
            directories[i].maxdepth as int,
        ) + spec_aggregate_walks(directories, trees, home, i + 1)
    }
}

/// The full candidate list: all walk results, then all session names.
pub open spec fn spec_aggregate(
    home: Seq<char>,
    directories: Seq<Directory>,
    trees: Seq<FsTree>,
    session_names: Seq<Seq<char>>,
) -> Seq<Seq<char>> {
    spec_aggregate_walks(directories, trees, home, 0) + session_names
}

/// Builds the candidate list from the modeled subtree of each search root
/// (`trees[i]` is what sits under `directories[i]`) and the session names.
pub fn aggregate(
    home: &str,
    directories: &Vec<Directory>,
    trees: &Vec<FsTree>,
    session_names: &Vec<String>,
) -> (r: Vec<String>)
    requires
        trees@.len() == directories@.len(),
    ensures
        r.deep_view() == spec_aggregate(home@, directories@, trees@, session_names.deep_view()),
{
    let ghost walks_total = spec_aggregate_walks(directories@, trees@, home@, 0);
    let mut r: Vec<String> = Vec::new();
    proof {
        assert(r.deep_view() =~= Seq::<Seq<char>>::empty());
        assert(Seq::<Seq<char>>::empty() + walks_total =~= walks_total);
    }
    let mut i: usize = 0;
    while i < directories.len()
        invariant
            trees@.len() == directories@.len(),
            i <= directories@.len(),
            r.deep_view() + spec_aggregate_walks(directories@, trees@, home@, i as int)
                == walks_total,
        decreases directories@.len() - i,
    {
        let ghost before = r.deep_view();
        let d = &directories[i];
        let root = expand_home(home, d.name.as_str());
        let mut dirs = find_dirs(&trees[i], root.as_str(), 1, d.mindepth, d.maxdepth);
        let ghost dirsv = dirs.deep_view();
        r.append(&mut dirs);
        proof {
            assert(r.deep_view() =~= before + dirsv);
        }
        i = i + 1;
    }
    proof {
        assert(spec_aggregate_walks(directories@, trees@, home@, directories@.len() as int)
            =~= Seq::<Seq<char>>::empty());
        assert(r.deep_view() =~= r.deep_view() + Seq::<Seq<char>>::empty());
        assert(r.deep_view() == walks_total);
    }
    let mut j: usize = 0;
    while j < session_names.len()
        invariant
            j <= session_names@.len(),
            r.deep_view() == walks_total + session_names.deep_view().subrange(0, j as int),
        decreases session_names@.len() - j,
    {
        let ghost before = r.deep_view();
        r.push(session_names[j].clone());
        proof {
            assert(r.deep_view() =~= before.push(session_names@[j as int]@));
            assert(walks_total + session_names.deep_view().subrange(0, j + 1) =~= before.push(
                session_names@[j as int]@,
            ));
        }
        j = j + 1;
    }
    proof {
        assert(session_names.deep_view().subrange(0, session_names@.len() as int)
            =~= session_names.deep_view());
        assert(walks_total + session_names.deep_view().subrange(0, 0) =~= walks_total);
    }
    r
}

} // verus!
