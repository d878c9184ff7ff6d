//! Path handling: home-shorthand expansion for search roots and the session
//! identifier derived from a directory path.

use vstd::prelude::*;
use vstd::string::*;
use crate::strutil::{concat_str, replace_char, spec_replace_char};

verus! {

/// The search-root path with a leading home shorthand marker replaced by the
/// home directory path.
pub open spec fn spec_expand_home(home: Seq<char>, name: Seq<char>) -> Seq<char> {
    if name.len() > 0 && name[0] == '~' {
        home + name.subrange(1, name.len() as int)
    } else {
        name
    }
}

pub fn expand_home(home: &str, name: &str) -> (r: String)
    ensures
        r@ == spec_expand_home(home@, name@),
{
    let n = name.unicode_len();
    if n > 0 && name.get_char(0) == '~' {
        let rest = name.substring_char(1, n);
        concat_str(home, rest)
    } else {
        name.to_owned()
    }
}

/// The part of the string after its last path separator; the whole string if
/// it has none, empty if it ends with one.
pub open spec fn spec_after_last_slash(s: Seq<char>) -> Seq<char>
    decreases s.len(),
{
    if s.len() == 0 {
        Seq::empty()
    } else if s[s.len() - 1] == '/' {
        Seq::empty()
    } else {
        spec_after_last_slash(s.drop_last()).push(s[s.len() - 1])
    }
}

proof fn lemma_after_last_slash_subrange(s: Seq<char>, cut: int)
    requires
        0 <= cut <= s.len(),
        cut > 0 ==> s[cut - 1] == '/',
        forall|k: int| cut <= k < s.len() ==> s[k] != '/',
    ensures
        spec_after_last_slash(s) == s.subrange(cut, s.len() as int),
    decreases s.len(),
{
    if s.len() == 0 {
        assert(s.subrange(0, 0) =~= Seq::<char>::empty());
    } else if cut == s.len() {
        assert(s[s.len() - 1] == '/');
        assert(s.subrange(cut, s.len() as int) =~= Seq::<char>::empty());
    } else {
        assert(s[s.len() - 1] != '/');
        lemma_after_last_slash_subrange(s.drop_last(), cut);
        assert(s.drop_last().subrange(cut, s.len() - 1) =~= s.subrange(cut, s.len() - 1));
        assert(s.subrange(cut, s.len() as int) =~= s.subrange(cut, s.len() - 1).push(
            s[s.len() - 1],
        ));
    }
}

/// The final path component of the string.
pub fn last_component(path: &str) -> (r: String)
    ensures
        r@ == spec_after_last_slash(path@),
{
    let n = path.unicode_len();
    let mut cut: usize = 0;
    let mut i: usize = 0;
    while i < n
        invariant
            n == path@.len(),
            i <= n,
            cut <= i,
            cut > 0 ==> path@[cut - 1] == '/',
            forall|k: int| cut <= k < i ==> path@[k] != '/',
        decreases n - i,
    {
        if path.get_char(i) == '/' {
            cut = i + 1;
        }
        i = i + 1;
    }
    proof {
        lemma_after_last_slash_subrange(path@, cut as int);
    }
    let r = path.substring_char(cut, n);
    r.to_owned()
}

/// The multiplexer session identifier for a directory: its final path
/// component with every period replaced by an underscore; a fixed fallback
/// name when the path has no final component.
pub open spec fn spec_session_name_for_dir(path: Seq<char>) -> Seq<char> {
    let comp = spec_after_last_slash(path);
    if comp.len() == 0 {
        spec_replace_char("session"@, '.', '_')
    } else {
        spec_replace_char(comp, '.', '_')
    }
}

pub fn session_name_for_dir(path: &str) -> (r: String)
    ensures
        r@ == spec_session_name_for_dir(path@),
{
    let comp = last_component(path);
    if comp.as_str().is_empty() {
        replace_char("session", '.', '_')
    } else {
        replace_char(comp.as_str(), '.', '_')
    }
}

} // verus!
