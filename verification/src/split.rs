//! Cutting a character sequence into pieces and into lines.

use vstd::prelude::*;
use vstd::slice::slice_subrange;
use crate::text::{find, find_char, lemma_find_char};

verus! {

/// The pieces of `s` between the occurrences of `sep`, in order. There is always at least
/// one piece, and a piece may be empty.
pub open spec fn split(s: Seq<char>, sep: char) -> Seq<Seq<char>>
    decreases s.len(),
{
    let n = find_char(s, sep);
    if 0 <= n < s.len() {
        seq![s.take(n)] + split(s.skip(n + 1), sep)
    } else {
        seq![s]
    }
}

/// `l` without the carriage return it may end with.
pub open spec fn strip_cr(l: Seq<char>) -> Seq<char> {
    if l.len() > 0 && l.last() == '\r' {
        l.drop_last()
    } else {
        l
    }
}

/// The lines of `s`. A line ends with a line feed, or with a carriage return and a line
/// feed; neither belongs to the line. The last line needs no line ending, and text that
/// ends with a line ending has no empty line after it.
pub open spec fn lines(s: Seq<char>) -> Seq<Seq<char>>
    decreases s.len(),
{
    let n = find_char(s, '\n');
    if s.len() == 0 {
        Seq::empty()
    } else if 0 <= n < s.len() {
        seq![strip_cr(s.take(n))] + lines(s.skip(n + 1))
    } else {
        seq![s]
    }
}

/// What each slice of `v` holds.
pub open spec fn slice_views(v: Seq<&[char]>) -> Seq<Seq<char>> {
    v.map_values(|x: &[char]| x@)
}

/// Cuts `s` at each occurrence of `sep`.
pub fn split_on<'a>(s: &'a [char], sep: char) -> (out: Vec<&'a [char]>)
    ensures
        slice_views(out@) == split(s@, sep),
{
    let mut out: Vec<&'a [char]> = Vec::new();
    let mut rest: &'a [char] = s;
    loop
        invariant_except_break
            split(s@, sep) == slice_views(out@) + split(rest@, sep),
        ensures
            slice_views(out@) == split(s@, sep),
        decreases rest@.len(),
    {
        let n = find(rest, sep);
        proof {
            lemma_find_char(rest@, sep);
        }
        if n < rest.len() {
            let piece = slice_subrange(rest, 0, n);
            let after = slice_subrange(rest, n + 1, rest.len());
            assert(piece@ =~= rest@.take(n as int));
            assert(after@ =~= rest@.skip(n + 1));
            assert(slice_views(out@.push(piece)) =~= slice_views(out@) + seq![piece@]);
            assert(split(s@, sep) =~= slice_views(out@.push(piece)) + split(after@, sep));
            out.push(piece);
            rest = after;
        } else {
            assert(slice_views(out@.push(rest)) =~= slice_views(out@) + seq![rest@]);
            out.push(rest);
            break;
        }
    }
    out
}

/// Cuts `s` into its lines.
pub fn split_lines<'a>(s: &'a [char]) -> (out: Vec<&'a [char]>)
    ensures
        slice_views(out@) == lines(s@),
{
    let mut out: Vec<&'a [char]> = Vec::new();
    let mut rest: &'a [char] = s;
    while rest.len() > 0
        invariant
            lines(s@) == slice_views(out@) + lines(rest@),
        decreases rest@.len(),
    {
        let n = find(rest, '\n');
        proof {
            lemma_find_char(rest@, '\n');
        }
        if n < rest.len() {
            let whole = slice_subrange(rest, 0, n);
            let line = if n > 0 && whole[n - 1] == '\r' {
                slice_subrange(whole, 0, n - 1)
            } else {
                whole
            };
            let after = slice_subrange(rest, n + 1, rest.len());
            assert(whole@ =~= rest@.take(n as int));
            assert(line@ =~= strip_cr(whole@));
            assert(after@ =~= rest@.skip(n + 1));
            assert(slice_views(out@.push(line)) =~= slice_views(out@) + seq![line@]);
            assert(lines(s@) =~= slice_views(out@.push(line)) + lines(after@));
            out.push(line);
            rest = after;
        } else {
            assert(slice_views(out@.push(rest)) =~= slice_views(out@) + seq![rest@]);
            assert(lines(s@) =~= slice_views(out@.push(rest)) + lines(rest@.skip(rest@.len() as int)));
            out.push(rest);
            rest = slice_subrange(rest, rest.len(), rest.len());
            assert(rest@ =~= Seq::<char>::empty());
        }
    }
    assert(lines(rest@) =~= Seq::<Seq<char>>::empty());
    assert(slice_views(out@) + lines(rest@) =~= slice_views(out@));
    out
}

} // verus!
