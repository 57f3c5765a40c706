//! Character classes and searches over character sequences.
//!
//! Everything the request parser and the response writer say about text is
//! stated over `Seq<char>` with the spec functions of this module.

use vstd::prelude::*;
use vstd::slice::slice_subrange;

verus! {

/// Whether `c` is whitespace: one of the code points that Unicode classes as
/// `White_Space`.
pub open spec fn is_whitespace(c: char) -> bool {
    let u = c as u32;
    ||| 0x09 <= u <= 0x0d
    ||| u == 0x20
    ||| u == 0x85
    ||| u == 0xa0
    ||| u == 0x1680
    ||| 0x2000 <= u <= 0x200a
    ||| u == 0x2028
    ||| u == 0x2029
    ||| u == 0x202f
    ||| u == 0x205f
    ||| u == 0x3000
}

/// Decides [`is_whitespace`].
pub fn char_is_whitespace(c: char) -> (b: bool)
    ensures
        b == is_whitespace(c),
{
    let u: u32 = c as u32;
    (0x09 <= u && u <= 0x0d) || u == 0x20 || u == 0x85 || u == 0xa0 || u == 0x1680 || (0x2000 <= u
        && u <= 0x200a) || u == 0x2028 || u == 0x2029 || u == 0x202f || u == 0x205f || u == 0x3000
}

/// The index of the first occurrence of `c` in `s`, or `s.len()` when `c` does not occur.
pub open spec fn find_char(s: Seq<char>, c: char) -> int
    decreases s.len(),
{
    if s.len() == 0 {
        0
    } else if s[0] == c {
        0
    } else {
        1 + find_char(s.skip(1), c)
    }
}

/// `i` is where `c` first occurs in `s`, or the length of `s` if it never does.
pub open spec fn is_first_occurrence(s: Seq<char>, c: char, i: int) -> bool {
    &&& 0 <= i <= s.len()
    &&& forall|j: int| 0 <= j < i ==> s[j] != c
    &&& i < s.len() ==> s[i] == c
}

/// [`find_char`] is the first occurrence.
pub proof fn lemma_find_char(s: Seq<char>, c: char)
    ensures
        is_first_occurrence(s, c, find_char(s, c)),
    decreases s.len(),
{
    if s.len() != 0 && s[0] != c {
        let t = s.skip(1);
        lemma_find_char(t, c);
        let i = find_char(s, c);
        assert forall|j: int| 0 <= j < i implies s[j] != c by {
            if j > 0 {
                assert(t[j - 1] == s[j]);
            }
        }
        if i < s.len() {
            assert(t[i - 1] == s[i]);
        }
    }
}

/// The first occurrence is unique, so it is [`find_char`].
pub proof fn lemma_find_char_unique(s: Seq<char>, c: char, i: int)
    requires
        is_first_occurrence(s, c, i),
    ensures
        find_char(s, c) == i,
{
    lemma_find_char(s, c);
    let k = find_char(s, c);
    if k < i {
        assert(s[k] != c);
    } else if i < k {
        assert(s[i] == c);
    }
}

/// Finds the first occurrence of `c` in `s`.
pub fn find(s: &[char], c: char) -> (i: usize)
    ensures
        i == find_char(s@, c),
{
    let mut i: usize = 0;
    while i < s.len() && s[i] != c
        invariant
            i <= s.len(),
            forall|j: int| 0 <= j < i ==> s@[j] != c,
        decreases s.len() - i,
    {
        i += 1;
    }
    proof {
        lemma_find_char_unique(s@, c, i as int);
    }
    i
}

/// The number of whitespace characters that `s` begins with.
pub open spec fn leading_whitespace(s: Seq<char>) -> int
    decreases s.len(),
{
    if s.len() == 0 || !is_whitespace(s[0]) {
        0
    } else {
        1 + leading_whitespace(s.skip(1))
    }
}

/// The number of non-whitespace characters that `s` begins with.
pub open spec fn leading_word(s: Seq<char>) -> int
    decreases s.len(),
{
    if s.len() == 0 || is_whitespace(s[0]) {
        0
    } else {
        1 + leading_word(s.skip(1))
    }
}

/// The number of whitespace characters that `s` ends with.
pub open spec fn trailing_whitespace(s: Seq<char>) -> int
    decreases s.len(),
{
    if s.len() == 0 || !is_whitespace(s.last()) {
        0
    } else {
        1 + trailing_whitespace(s.drop_last())
    }
}

/// `n` characters of one class (`white` says which) lead `s`, and the next is of the other.
pub open spec fn is_leading_run(s: Seq<char>, white: bool, n: int) -> bool {
    &&& 0 <= n <= s.len()
    &&& forall|j: int| 0 <= j < n ==> is_whitespace(s[j]) == white
    &&& n < s.len() ==> is_whitespace(s[n]) != white
}

/// A leading run of whitespace has the length [`leading_whitespace`].
pub proof fn lemma_leading_whitespace(s: Seq<char>, n: int)
    requires
        is_leading_run(s, true, n),
    ensures
        leading_whitespace(s) == n,
    decreases s.len(),
{
    if n > 0 {
        let t = s.skip(1);
        assert(is_whitespace(s[0]));
        assert forall|j: int| 0 <= j < n - 1 implies is_whitespace(t[j]) by {
            assert(t[j] == s[j + 1]);
        }
        if n - 1 < t.len() {
            assert(t[n - 1] == s[n]);
        }
        lemma_leading_whitespace(t, n - 1);
    }
}

/// A leading run of non-whitespace has the length [`leading_word`].
pub proof fn lemma_leading_word(s: Seq<char>, n: int)
    requires
        is_leading_run(s, false, n),
    ensures
        leading_word(s) == n,
    decreases s.len(),
{
    if n > 0 {
        let t = s.skip(1);
        assert(!is_whitespace(s[0]));
        assert forall|j: int| 0 <= j < n - 1 implies !is_whitespace(t[j]) by {
            assert(t[j] == s[j + 1]);
        }
        if n - 1 < t.len() {
            assert(t[n - 1] == s[n]);
        }
        lemma_leading_word(t, n - 1);
    }
}

/// [`leading_whitespace`] and [`leading_word`] are leading runs.
pub proof fn lemma_leading_runs(s: Seq<char>)
    ensures
        is_leading_run(s, true, leading_whitespace(s)),
        is_leading_run(s, false, leading_word(s)),
    decreases s.len(),
{
    if s.len() != 0 {
        let t = s.skip(1);
        lemma_leading_runs(t);
        if is_whitespace(s[0]) {
            let n = leading_whitespace(s);
            assert forall|j: int| 0 <= j < n implies is_whitespace(s[j]) by {
                if j > 0 {
                    assert(t[j - 1] == s[j]);
                }
            }
            if n < s.len() {
                assert(t[n - 1] == s[n]);
            }
        } else {
            let n = leading_word(s);
            assert forall|j: int| 0 <= j < n implies !is_whitespace(s[j]) by {
                if j > 0 {
                    assert(t[j - 1] == s[j]);
                }
            }
            if n < s.len() {
                assert(t[n - 1] == s[n]);
            }
        }
    }
}

/// `n` whitespace characters end `s`, and the one before them is not whitespace.
pub open spec fn is_trailing_run(s: Seq<char>, n: int) -> bool {
    &&& 0 <= n <= s.len()
    &&& forall|j: int| s.len() - n <= j < s.len() ==> is_whitespace(s[j])
    &&& n < s.len() ==> !is_whitespace(s[s.len() - n - 1])
}

/// A trailing run of whitespace has the length [`trailing_whitespace`].
pub proof fn lemma_trailing_whitespace(s: Seq<char>, n: int)
    requires
        is_trailing_run(s, n),
    ensures
        trailing_whitespace(s) == n,
    decreases s.len(),
{
    if n > 0 {
        let t = s.drop_last();
        assert(is_whitespace(s[s.len() - 1]));
        assert forall|j: int| t.len() - (n - 1) <= j < t.len() implies is_whitespace(t[j]) by {
            assert(t[j] == s[j]);
        }
        if n - 1 < t.len() {
            assert(t[t.len() - (n - 1) - 1] == s[s.len() - n - 1]);
        }
        lemma_trailing_whitespace(t, n - 1);
    }
}

/// `s` without the whitespace it begins and ends with.
pub open spec fn trim(s: Seq<char>) -> Seq<char> {
    let rest = s.skip(leading_whitespace(s));
    rest.take(rest.len() - trailing_whitespace(rest))
}

/// Counts the whitespace characters that `s` begins with.
pub fn count_leading_whitespace(s: &[char]) -> (n: usize)
    ensures
        n == leading_whitespace(s@),
        n <= s@.len(),
{
    let mut n: usize = 0;
    while n < s.len() && char_is_whitespace(s[n])
        invariant
            n <= s.len(),
            forall|j: int| 0 <= j < n ==> is_whitespace(s@[j]),
        decreases s.len() - n,
    {
        n += 1;
    }
    proof {
        lemma_leading_whitespace(s@, n as int);
    }
    n
}

/// Counts the non-whitespace characters that `s` begins with.
pub fn count_leading_word(s: &[char]) -> (n: usize)
    ensures
        n == leading_word(s@),
        n <= s@.len(),
{
    let mut n: usize = 0;
    while n < s.len() && !char_is_whitespace(s[n])
        invariant
            n <= s.len(),
            forall|j: int| 0 <= j < n ==> !is_whitespace(s@[j]),
        decreases s.len() - n,
    {
        n += 1;
    }
    proof {
        lemma_leading_word(s@, n as int);
    }
    n
}

/// Counts the whitespace characters that `s` ends with.
pub fn count_trailing_whitespace(s: &[char]) -> (n: usize)
    ensures
        n == trailing_whitespace(s@),
        n <= s@.len(),
{
    let mut n: usize = 0;
    while n < s.len() && char_is_whitespace(s[s.len() - n - 1])
        invariant
            n <= s.len(),
            forall|j: int| s@.len() - n <= j < s@.len() ==> is_whitespace(s@[j]),
        decreases s.len() - n,
    {
        n += 1;
    }
    proof {
        lemma_trailing_whitespace(s@, n as int);
    }
    n
}

/// The part of `s` between its leading and its trailing whitespace.
pub fn trimmed<'a>(s: &'a [char]) -> (out: &'a [char])
    ensures
        out@ == trim(s@),
{
    let start = count_leading_whitespace(s);
    let rest = slice_subrange(s, start, s.len());
    let end = rest.len() - count_trailing_whitespace(rest);
    let out = slice_subrange(rest, 0, end);
    assert(rest@ =~= s@.skip(start as int));
    assert(out@ =~= rest@.take(end as int));
    out
}

/// `p` is what `s` begins with.
pub open spec fn has_prefix(s: Seq<char>, p: Seq<char>) -> bool {
    p.len() <= s.len() && s.take(p.len() as int) == p
}

/// `p` is what `s` ends with.
pub open spec fn has_suffix(s: Seq<char>, p: Seq<char>) -> bool {
    p.len() <= s.len() && s.skip(s.len() - p.len()) == p
}

/// `p` occurs somewhere in `s`.
pub open spec fn has_infix(s: Seq<char>, p: Seq<char>) -> bool {
    exists|i: int| 0 <= i <= s.len() && #[trigger] has_prefix(s.skip(i), p)
}

/// Decides [`has_prefix`].
pub fn starts_with(s: &[char], p: &[char]) -> (b: bool)
    ensures
        b == has_prefix(s@, p@),
{
    if p.len() > s.len() {
        return false;
    }
    let mut i: usize = 0;
    while i < p.len()
        invariant
            i <= p.len() <= s.len(),
            forall|j: int| 0 <= j < i ==> s@[j] == p@[j],
        decreases p.len() - i,
    {
        if s[i] != p[i] {
            assert(s@.take(p@.len() as int)[i as int] != p@[i as int]);
            return false;
        }
        i += 1;
    }
    assert(s@.take(p@.len() as int) =~= p@);
    true
}

/// Decides [`has_suffix`].
pub fn ends_with(s: &[char], p: &[char]) -> (b: bool)
    ensures
        b == has_suffix(s@, p@),
{
    if p.len() > s.len() {
        return false;
    }
    let tail = slice_subrange(s, s.len() - p.len(), s.len());
    assert(tail@ =~= s@.skip(s@.len() - p@.len()));
    let b = starts_with(tail, p);
    assert(tail@.take(p@.len() as int) =~= tail@);
    b
}

/// Decides [`has_infix`].
pub fn contains(s: &[char], p: &[char]) -> (b: bool)
    ensures
        b == has_infix(s@, p@),
{
    let mut i: usize = 0;
    while i < s.len()
        invariant
            i <= s.len(),
            forall|j: int| 0 <= j < i ==> !has_prefix(s@.skip(j), p@),
        decreases s.len() - i,
    {
        let rest = slice_subrange(s, i, s.len());
        assert(rest@ =~= s@.skip(i as int));
        if starts_with(rest, p) {
            return true;
        }
        i += 1;
    }
    let end = slice_subrange(s, i, s.len());
    assert(end@ =~= s@.skip(i as int));
    starts_with(end, p)
}

/// `String::push` appends one character to the text.
pub assume_specification[ String::push ](s: &mut String, c: char)
    ensures
        final(s)@ == old(s)@.push(c),
;

/// The characters of `s`, in order.
pub fn chars_of(s: &str) -> (out: Vec<char>)
    ensures
        out@ == s@,
{
    let mut out: Vec<char> = Vec::new();
    for c in it: s.chars()
        invariant
            out@ == it.seq().take(it.index() as int),
            it.seq() == s@,
    {
        out.push(c);
    }
    out
}

/// The text made of the characters of `s`, in order.
pub fn string_of(s: &[char]) -> (out: String)
    ensures
        out@ == s@,
{
    let mut out = String::new();
    let mut i: usize = 0;
    while i < s.len()
        invariant
            i <= s.len(),
            out@ == s@.take(i as int),
        decreases s.len() - i,
    {
        out.push(s[i]);
        i += 1;
    }
    out
}

/// Whether two texts hold the same characters.
pub fn same_text(a: &str, b: &str) -> (r: bool)
    ensures
        r == (a@ == b@),
{
    a.to_owned() == b.to_owned()
}

} // verus!
