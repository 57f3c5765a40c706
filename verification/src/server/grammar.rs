//! What the text of a request means.
//!
//! The spec functions here say, over character sequences, how a request text is taken
//! apart: request line, target, query, header lines, body. The parser is proved
//! against them.

use vstd::prelude::*;
use vstd::utf8::encode_utf8;
use crate::server::errors::ParseFailure;
use crate::server::methods::{method_of, HttpMethod};
use crate::server::string_map::pairs_map;
use crate::split::{lines, split, strip_cr};
use crate::text::{
    find_char, leading_whitespace, leading_word, lemma_find_char, lemma_find_char_unique, trim,
};

verus! {

/// The lower-case form of a text, as `str::to_lowercase` gives it.
pub uninterp spec fn lowercase(s: Seq<char>) -> Seq<char>;

/// `str::to_lowercase` returns the lower-case form of the text, which depends on
/// nothing but the text.
pub assume_specification[ str::to_lowercase ](s: &str) -> (lower: String)
    ensures
        lower@ == lowercase(s@),
;

/// The first run of non-whitespace characters of `s`; empty when `s` has none.
pub open spec fn first_word(s: Seq<char>) -> Seq<char> {
    let rest = s.skip(leading_whitespace(s));
    rest.take(leading_word(rest))
}

/// What follows the first run of non-whitespace characters of `s`.
pub open spec fn after_first_word(s: Seq<char>) -> Seq<char> {
    let rest = s.skip(leading_whitespace(s));
    rest.skip(leading_word(rest))
}

/// The method token of a request line: its first word.
pub open spec fn method_token(line: Seq<char>) -> Seq<char> {
    first_word(line)
}

/// The target token of a request line: its second word.
pub open spec fn target_token(line: Seq<char>) -> Seq<char> {
    first_word(after_first_word(line))
}

/// The path of a request target: what stands before the first question mark.
pub open spec fn target_path(target: Seq<char>) -> Seq<char> {
    target.take(find_char(target, '?'))
}

/// The query string of a request target: what stands after the first question mark,
/// and nothing when there is none.
pub open spec fn target_query(target: Seq<char>) -> Seq<char> {
    let q = find_char(target, '?');
    if 0 <= q < target.len() {
        target.skip(q + 1)
    } else {
        Seq::empty()
    }
}

/// The key and value that one piece of a query string stands for. An empty piece stands
/// for nothing, a piece without an equals sign for a key with an empty value; otherwise
/// the first equals sign parts key and value.
pub open spec fn query_pair(piece: Seq<char>) -> Option<(Seq<char>, Seq<char>)> {
    let e = find_char(piece, '=');
    if piece.len() == 0 {
        None
    } else if 0 <= e < piece.len() {
        Some((piece.take(e), piece.skip(e + 1)))
    } else {
        Some((piece, Seq::empty()))
    }
}

/// The keys and values that the pieces of a query string stand for, in order.
pub open spec fn query_pairs(pieces: Seq<Seq<char>>) -> Seq<(Seq<char>, Seq<char>)>
    decreases pieces.len(),
{
    if pieces.len() == 0 {
        Seq::empty()
    } else {
        let before = query_pairs(pieces.drop_last());
        match query_pair(pieces.last()) {
            Some(pair) => before.push(pair),
            None => before,
        }
    }
}

/// The parameters of a query string. Its pieces are parted by `&`; where a key occurs
/// more than once, its last value stays.
pub open spec fn query_params(query: Seq<char>) -> Map<Seq<char>, Seq<char>> {
    pairs_map(query_pairs(split(query, '&')))
}

/// Whether a header line has the colon that parts name and value.
pub open spec fn is_header(line: Seq<char>) -> bool {
    0 <= find_char(line, ':') < line.len()
}

/// The name and the value of a header line. The first colon parts them; both are
/// trimmed, and the name is lower-cased.
pub open spec fn header_pair(line: Seq<char>) -> (Seq<char>, Seq<char>) {
    let c = find_char(line, ':');
    (lowercase(trim(line.take(c))), trim(line.skip(c + 1)))
}

/// The index of the first empty line of `ls`, or `ls.len()` when no line is empty.
pub open spec fn blank_index(ls: Seq<Seq<char>>) -> int
    decreases ls.len(),
{
    if ls.len() == 0 {
        0
    } else if ls[0].len() == 0 {
        0
    } else {
        1 + blank_index(ls.skip(1))
    }
}

/// The header lines of a request: the lines after the request line, up to the first
/// empty one.
pub open spec fn header_lines(ls: Seq<Seq<char>>) -> Seq<Seq<char>> {
    let rest = ls.skip(1);
    rest.take(blank_index(rest))
}

/// Whether an empty line ends the header lines.
pub open spec fn has_blank_line(ls: Seq<Seq<char>>) -> bool {
    let rest = ls.skip(1);
    blank_index(rest) < rest.len()
}

/// The headers that header lines stand for. Where a name occurs more than once, its
/// last value stays.
pub open spec fn headers_of(block: Seq<Seq<char>>) -> Map<Seq<char>, Seq<char>> {
    pairs_map(block.map_values(|line: Seq<char>| header_pair(line)))
}

/// The length of the blank-line marker that `s` begins with: 4 for CR LF CR LF, 2 for
/// LF LF, 0 when `s` begins with neither.
pub open spec fn marker_len(s: Seq<char>) -> int {
    if s.len() >= 4 && s[0] == '\r' && s[1] == '\n' && s[2] == '\r' && s[3] == '\n' {
        4
    } else if s.len() >= 2 && s[0] == '\n' && s[1] == '\n' {
        2
    } else {
        0
    }
}

/// The index just after the first blank-line marker of `s`, or `s.len()` when `s` holds
/// no marker.
pub open spec fn body_start(s: Seq<char>) -> int
    decreases s.len(),
{
    if s.len() == 0 {
        0
    } else if marker_len(s) > 0 {
        marker_len(s)
    } else {
        1 + body_start(s.skip(1))
    }
}

/// The body of a request with the text `input`: what follows the first blank-line
/// marker, as the bytes that it is in UTF-8.
pub open spec fn body_after_marker(input: Seq<char>) -> Seq<u8> {
    encode_utf8(input.skip(body_start(input)))
}

/// A request as the contracts see it.
pub struct RequestView {
    pub method: HttpMethod,
    pub path: Seq<char>,
    pub headers: Map<Seq<char>, Seq<char>>,
    pub query_params: Map<Seq<char>, Seq<char>>,
    pub body: Seq<u8>,
}

/// The body of the request `input` with the method `method` and the lines `ls`. A `GET`
/// or `DELETE` without a blank line has none; otherwise it is what follows the first
/// blank-line marker of the input.
pub open spec fn body_of(input: Seq<char>, method: HttpMethod, ls: Seq<Seq<char>>) -> Seq<u8> {
    if !has_blank_line(ls) && (method == HttpMethod::GET || method == HttpMethod::DELETE) {
        Seq::empty()
    } else {
        body_after_marker(input)
    }
}

/// What parsing the request text `input` gives: the request, or the first thing that
/// is wrong with the text.
pub open spec fn parse_request(input: Seq<char>) -> Result<RequestView, ParseFailure> {
    let ls = lines(input);
    if ls.len() == 0 {
        Err(ParseFailure::InvalidFormat)
    } else if method_token(ls[0]).len() == 0 || target_token(ls[0]).len() == 0 {
        Err(ParseFailure::InvalidRequestLine)
    } else {
        match method_of(method_token(ls[0])) {
            None => Err(ParseFailure::InvalidMethod(method_token(ls[0]))),
            Some(method) => {
                let block = header_lines(ls);
                if exists|i: int| 0 <= i < block.len() && !is_header(#[trigger] block[i]) {
                    Err(ParseFailure::InvalidHeader)
                } else {
                    Ok(
                        RequestView {
                            method,
                            path: target_path(target_token(ls[0])),
                            headers: headers_of(block),
                            query_params: query_params(target_query(target_token(ls[0]))),
                            body: body_of(input, method, ls),
                        },
                    )
                }
            },
        }
    }
}

/// [`blank_index`] is where the first empty line stands, or the number of lines.
pub proof fn lemma_blank_index(ls: Seq<Seq<char>>)
    ensures
        0 <= blank_index(ls) <= ls.len(),
        forall|j: int| 0 <= j < blank_index(ls) ==> ls[j].len() != 0,
        blank_index(ls) < ls.len() ==> ls[blank_index(ls)].len() == 0,
    decreases ls.len(),
{
    if ls.len() != 0 && ls[0].len() != 0 {
        let t = ls.skip(1);
        lemma_blank_index(t);
        let i = blank_index(ls);
        assert forall|j: int| 0 <= j < i implies ls[j].len() != 0 by {
            if j > 0 {
                assert(t[j - 1] == ls[j]);
            }
        }
        if i < ls.len() {
            assert(t[i - 1] == ls[i]);
        }
    }
}

/// A place before which no line is empty, and which holds an empty line or is the end,
/// is [`blank_index`].
pub proof fn lemma_blank_index_unique(ls: Seq<Seq<char>>, i: int)
    requires
        0 <= i <= ls.len(),
        forall|j: int| 0 <= j < i ==> ls[j].len() != 0,
        i < ls.len() ==> ls[i].len() == 0,
    ensures
        blank_index(ls) == i,
{
    lemma_blank_index(ls);
    let n = blank_index(ls);
    if n < i {
        assert(ls[n].len() != 0);
    } else if i < n {
        assert(ls[i].len() == 0);
    }
}

/// [`body_start`] lies within `b`.
pub proof fn lemma_body_start_bounds(b: Seq<char>)
    ensures
        0 <= body_start(b) <= b.len(),
    decreases b.len(),
{
    if b.len() != 0 && marker_len(b) == 0 {
        lemma_body_start_bounds(b.skip(1));
    }
}

/// Where no marker begins in the first `i` places of `b`, the search goes on at `i`.
pub proof fn lemma_body_start_skip(b: Seq<char>, i: int)
    requires
        0 <= i <= b.len(),
        forall|j: int| 0 <= j < i ==> marker_len(#[trigger] b.skip(j)) == 0,
    ensures
        body_start(b) == i + body_start(b.skip(i)),
    decreases i,
{
    if i > 0 {
        assert(marker_len(b.skip(0)) == 0);
        assert(b.skip(0) =~= b);
        let t = b.skip(1);
        assert forall|j: int| 0 <= j < i - 1 implies marker_len(#[trigger] t.skip(j)) == 0 by {
            assert(t.skip(j) =~= b.skip(j + 1));
        }
        lemma_body_start_skip(t, i - 1);
        assert(t.skip(i - 1) =~= b.skip(i));
    } else {
        assert(b.skip(0) =~= b);
    }
}

/// A blank-line marker in a text makes one of its lines after the first an empty line.
pub proof fn lemma_marker_makes_blank_line(s: Seq<char>, p: int)
    requires
        0 <= p < s.len(),
        marker_len(s.skip(p)) > 0,
    ensures
        exists|k: int| 1 <= k < lines(s).len() && (#[trigger] lines(s)[k]).len() == 0,
    decreases s.len(),
{
    let m = s.skip(p);
    lemma_find_char(s, '\n');
    let n = find_char(s, '\n');
    assert(m[0] == s[p] && m[1] == s[p + 1]);
    if marker_len(m) == 4 {
        assert(m[2] == s[p + 2] && m[3] == s[p + 3]);
        assert(s[p + 1] == '\n');
    } else {
        assert(s[p] == '\n');
    }
    assert(n <= p + 1);
    let rest = s.skip(n + 1);
    assert(lines(s) == seq![strip_cr(s.take(n))] + lines(rest));
    if n < p {
        assert(rest.skip(p - n - 1) =~= m);
        lemma_marker_makes_blank_line(rest, p - n - 1);
        let k = choose|k: int| 1 <= k < lines(rest).len() && (#[trigger] lines(rest)[k]).len() == 0;
        assert(lines(s)[k + 1] == lines(rest)[k]);
    } else {
        // The line feed that ends the first line belongs to the marker, and what follows
        // it in the marker is an empty line.
        if marker_len(m) == 4 {
            assert(n == p + 1);
            assert(rest[0] == s[p + 2] && rest[1] == s[p + 3]);
            lemma_find_char_unique(rest, '\n', 1);
            assert(rest.take(1) =~= seq!['\r']);
            assert(seq!['\r'].drop_last() =~= Seq::<char>::empty());
            assert(strip_cr(rest.take(1)).len() == 0);
        } else {
            assert(n == p);
            assert(rest[0] == s[p + 1]);
            lemma_find_char_unique(rest, '\n', 0);
            assert(rest.take(0) =~= Seq::<char>::empty());
            assert(strip_cr(rest.take(0)).len() == 0);
        }
        assert(lines(rest)[0].len() == 0);
        assert(lines(s)[1] == lines(rest)[0]);
    }
}

/// A request has a body only if an empty line ended its header lines: where none did,
/// the body is empty, whatever the method.
pub proof fn lemma_body_needs_blank_line(input: Seq<char>)
    requires
        parse_request(input) is Ok,
        !has_blank_line(lines(input)),
    ensures
        parse_request(input)->Ok_0.body == Seq::<u8>::empty(),
{
    let ls = lines(input);
    let rest = ls.skip(1);
    lemma_blank_index(rest);
    if exists|p: int| 0 <= p < input.len() && marker_len(#[trigger] input.skip(p)) > 0 {
        let p = choose|p: int| 0 <= p < input.len() && marker_len(#[trigger] input.skip(p)) > 0;
        lemma_marker_makes_blank_line(input, p);
        let k = choose|k: int| 1 <= k < ls.len() && (#[trigger] ls[k]).len() == 0;
        assert(rest[k - 1] == ls[k]);
        assert(false);
    }
    lemma_body_start_skip(input, input.len() as int);
    assert(input.skip(input.len() as int) =~= Seq::<char>::empty());
    assert(body_start(Seq::<char>::empty()) == 0);
    assert(encode_utf8(Seq::<char>::empty()) =~= Seq::<u8>::empty());
}

} // verus!
