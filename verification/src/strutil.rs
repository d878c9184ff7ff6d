//! Small verified helpers for building and inspecting strings, used by the
//! path handling and the command planner.

use vstd::prelude::*;
use vstd::string::*;

verus! {

/// Relies on `String::push`: appends exactly one character to the string.
pub assume_specification[ String::push ](s: &mut String, ch: char)
    ensures
        final(s)@ == old(s)@.push(ch),
;

/// Concatenation of two string slices.
pub fn concat_str(a: &str, b: &str) -> (r: String)
    ensures
        r@ == a@ + b@,
{
    let s: String = a.to_owned();
    s.concat(b)
}

/// Equality of two string slices, decided character for character.
pub fn str_eq(a: &str, b: &str) -> (r: bool)
    ensures
        r == (a@ == b@),
{
    let sa: String = a.to_owned();
    let sb: String = b.to_owned();
    sa == sb
}

/// The string with every occurrence of `from` replaced by `to`.
pub open spec fn spec_replace_char(s: Seq<char>, from: char, to: char) -> Seq<char> {
    s.map_values(|c: char| if c == from { to } else { c })
}

pub fn replace_char(s: &str, from: char, to: char) -> (r: String)
    ensures
        r@ == spec_replace_char(s@, from, to),
{
    let n = s.unicode_len();
    let mut out = String::new();
    let mut i: usize = 0;
    while i < n
        invariant
            n == s@.len(),
            i <= n,
            out@ == spec_replace_char(s@.subrange(0, i as int), from, to),
        decreases n - i,
    {
        let c = s.get_char(i);
        if c == from {
            out.push(to);
        } else {
            out.push(c);
        }
        i = i + 1;
        proof {
            assert(s@.subrange(0, i as int) =~= s@.subrange(0, i - 1).push(s@[i - 1]));
            assert(out@ =~= spec_replace_char(s@.subrange(0, i as int), from, to));
        }
    }
    proof {
        assert(s@.subrange(0, n as int) =~= s@);
    }
    out
}

/// The lines of a string: pieces separated by the newline character, with no
/// empty piece after a trailing newline. `cur` is the part of the current
/// piece already read; `rest` is what is still to be read.
pub open spec fn spec_split_acc(cur: Seq<char>, rest: Seq<char>) -> Seq<Seq<char>>
    decreases rest.len(),
{
    if rest.len() == 0 {
        if cur.len() == 0 {
            Seq::empty()
        } else {
            seq![cur]
        }
    } else if rest[0] == '\n' {
        seq![cur] + spec_split_acc(Seq::empty(), rest.drop_first())
    } else {
        spec_split_acc(cur.push(rest[0]), rest.drop_first())
    }
}

pub open spec fn spec_split_lines(s: Seq<char>) -> Seq<Seq<char>> {
    spec_split_acc(Seq::empty(), s)
}

/// Splits a string at newline characters; a trailing newline ends the last
/// piece rather than opening an empty one.
pub fn split_lines(s: &str) -> (r: Vec<String>)
    ensures
        r.deep_view() == spec_split_lines(s@),
{
    let n = s.unicode_len();
    let mut out: Vec<String> = Vec::new();
    let mut cur = String::new();
    proof {
        assert(out.deep_view() =~= Seq::<Seq<char>>::empty());
        assert(s@.subrange(0, n as int) =~= s@);
        assert(Seq::<Seq<char>>::empty() + spec_split_acc(cur@, s@) =~= spec_split_acc(cur@, s@));
    }
    let mut i: usize = 0;
    while i < n
        invariant
            n == s@.len(),
            i <= n,
            spec_split_lines(s@) == out.deep_view() + spec_split_acc(cur@, s@.subrange(i as int, n as int)),
        decreases n - i,
    {
        let ghost rest = s@.subrange(i as int, n as int);
        let c = s.get_char(i);
        proof {
            assert(rest[0] == c);
            assert(rest.drop_first() =~= s@.subrange(i + 1, n as int));
        }
        if c == '\n' {
            let ghost prev = out.deep_view();
            let ghost piece = cur@;
            let done = cur;
            cur = String::new();
            out.push(done);
            proof {
                assert(out.deep_view() =~= prev.push(piece));
                assert(spec_split_acc(piece, rest) == seq![piece] + spec_split_acc(
                    Seq::empty(),
                    rest.drop_first(),
                ));
                assert(prev.push(piece) + spec_split_acc(Seq::empty(), rest.drop_first()) =~= prev
                    + spec_split_acc(piece, rest));
            }
        } else {
            cur.push(c);
        }
        i = i + 1;
    }
    proof {
        assert(s@.subrange(n as int, n as int) =~= Seq::<char>::empty());
    }
    if !cur.as_str().is_empty() {
        let ghost prev = out.deep_view();
        let ghost piece = cur@;
        out.push(cur);
        proof {
            assert(out.deep_view() =~= prev.push(piece));
            assert(prev.push(piece) =~= prev + seq![piece]);
        }
    } else {
        proof {
            assert(out.deep_view() + Seq::<Seq<char>>::empty() =~= out.deep_view());
        }
    }
    out
}

/// The candidate lines joined with single newline characters between them.
pub open spec fn spec_join_lines(lines: Seq<Seq<char>>) -> Seq<char>
    decreases lines.len(),
{
    if lines.len() == 0 {
        Seq::empty()
    } else if lines.len() == 1 {
        lines[0]
    } else {
        lines[0] + seq!['\n'] + spec_join_lines(lines.drop_first())
    }
}

proof fn lemma_join_lines_push(lines: Seq<Seq<char>>, last: Seq<char>)
    ensures
        spec_join_lines(lines.push(last)) == if lines.len() == 0 {
            last
        } else {
            spec_join_lines(lines) + seq!['\n'] + last
        },
    decreases lines.len(),
{
    if lines.len() == 0 {
        assert(lines.push(last).len() == 1);
        assert(lines.push(last)[0] == last);
    } else {
        assert(lines.push(last).drop_first() =~= lines.drop_first().push(last));
        lemma_join_lines_push(lines.drop_first(), last);
        if lines.len() == 1 {
            assert(spec_join_lines(lines) == lines[0]);
        }
    }
}

/// Joins the lines with newline characters, as the picker expects its
/// candidate list on standard input.
pub fn join_lines(lines: &Vec<String>) -> (r: String)
    ensures
        r@ == spec_join_lines(lines.deep_view()),
{
    let mut out = String::new();
    let mut i: usize = 0;
    while i < lines.len()
        invariant
            i <= lines@.len(),
            out@ == spec_join_lines(lines.deep_view().subrange(0, i as int)),
        decreases lines@.len() - i,
    {
        if i > 0 {
            out.push('\n');
        }
        out.append(lines[i].as_str());
        proof {
            let prefix = lines.deep_view().subrange(0, i as int);
            lemma_join_lines_push(prefix, lines@[i as int]@);
            assert(lines.deep_view().subrange(0, i + 1) =~= prefix.push(lines@[i as int]@));
            if i > 0 {
                assert(out@ =~= spec_join_lines(prefix) + seq!['\n'] + lines@[i as int]@);
            }
        }
        i = i + 1;
    }
    proof {
        assert(lines.deep_view().subrange(0, lines@.len() as int) =~= lines.deep_view());
    }
    out
}

} // verus!
