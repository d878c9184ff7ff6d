//! The loaded configuration: named sessions (local or remote) and search
//! roots with their depth windows. Parsing the configuration file is the
//! caller's business; the shape and its well-formedness rules live here.

use vstd::prelude::*;
use vstd::string::*;
use crate::strutil::str_eq;

verus! {

/// A secondary pane: its orientation tag and the command to run in it.
pub struct SplitConfig {
    /// Orientation: side-by-side panes for `vs`, stacked panes for `hs`.
    pub split_type: String,
    pub command: String,
}

/// A search root: a path (which may start with the home shorthand marker)
/// and the depth window of selectable directories below it.
pub struct Directory {
    pub name: String,
    pub mindepth: i32,
    pub maxdepth: i32,
}

/// A named session: `protocol` says whether it runs locally or on `host`
/// over the secure remote shell.
pub struct Session {
    pub name: String,
    pub protocol: String,
    pub host: Option<String>,
    pub command: String,
    pub split: Option<SplitConfig>,
}

/// The whole configuration.
pub struct Config {
    pub sessions: Vec<Session>,
    pub directory: Vec<Directory>,
}

pub fn clone_split(s: &SplitConfig) -> (r: SplitConfig)
    ensures
        r == *s,
{
    SplitConfig { split_type: s.split_type.clone(), command: s.command.clone() }
}

pub fn clone_split_opt(s: &Option<SplitConfig>) -> (r: Option<SplitConfig>)
    ensures
        r == *s,
{
    match s {
        Some(sp) => Some(clone_split(sp)),
        None => None,
    }
}

/// No session at all bears this name.
pub open spec fn spec_no_session(sessions: Seq<Session>, name: Seq<char>) -> bool {
    forall|j: int| 0 <= j < sessions.len() ==> (#[trigger] sessions[j]).name@ != name
}

/// `i` is the first index whose session bears this name.
pub open spec fn spec_first_session(sessions: Seq<Session>, name: Seq<char>, i: int) -> bool {
    &&& 0 <= i < sessions.len()
    &&& sessions[i].name@ == name
    &&& forall|j: int| 0 <= j < i ==> (#[trigger] sessions[j]).name@ != name
}

/// Looks a selection up among the configured sessions; the first session of
/// that name, if any.
pub fn find_session(sessions: &Vec<Session>, name: &str) -> (r: Option<usize>)
    ensures
        match r {
            Some(i) => spec_first_session(sessions@, name@, i as int),
            None => spec_no_session(sessions@, name@),
        },
{
    let mut i: usize = 0;
    while i < sessions.len()
        invariant
            i <= sessions@.len(),
            forall|j: int| 0 <= j < i ==> (#[trigger] sessions@[j]).name@ != name@,
        decreases sessions@.len() - i,
    {
        if str_eq(sessions[i].name.as_str(), name) {
            return Some(i);
        }
        i = i + 1;
    }
    None
}

/// The configuration is well formed: every depth window starts at a
/// non-negative minimum, and session names are unique.
pub open spec fn spec_config_wf(c: Config) -> bool {
    &&& forall|i: int|
        0 <= i < c.directory@.len() ==> (#[trigger] c.directory@[i]).mindepth >= 0
    &&& forall|i: int, j: int|
        0 <= i < j < c.sessions@.len() ==> (#[trigger] c.sessions@[i]).name@ != (
        #[trigger] c.sessions@[j]).name@
}

/// Decides well-formedness, so a malformed configuration can be rejected at
/// startup.
pub fn check_config(c: &Config) -> (r: bool)
    ensures
        r == spec_config_wf(*c),
{
    let mut i: usize = 0;
    while i < c.directory.len()
        invariant
            i <= c.directory@.len(),
            forall|k: int| 0 <= k < i ==> (#[trigger] c.directory@[k]).mindepth >= 0,
        decreases c.directory@.len() - i,
    {
        if c.directory[i].mindepth < 0 {
            return false;
        }
        i = i + 1;
    }
    let mut a: usize = 0;
    while a < c.sessions.len()
        invariant
            a <= c.sessions@.len(),
            forall|k: int| 0 <= k < c.directory@.len() ==> (#[trigger] c.directory@[k]).mindepth
                >= 0,
            forall|k: int, l: int|
                0 <= k < l < c.sessions@.len() && k < a ==> (#[trigger] c.sessions@[k]).name@ != (
                #[trigger] c.sessions@[l]).name@,
        decreases c.sessions@.len() - a,
    {
        let mut b: usize = a + 1;
        while b < c.sessions.len()
            invariant
                a < b || a + 1 == b,
                a < c.sessions@.len(),
                a + 1 <= b <= c.sessions@.len(),
                forall|l: int| a < l < b ==> (#[trigger] c.sessions@[l]).name@ != c.sessions@[
                    a as int].name@,
            decreases c.sessions@.len() - b,
        {
            if str_eq(c.sessions[a].name.as_str(), c.sessions[b].name.as_str()) {
                return false;
            }
            b = b + 1;
        }
        a = a + 1;
    }
    true
}

} // verus!
