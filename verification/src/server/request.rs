//! The request model and the parser that reads a request from its text.

use vstd::prelude::*;
use vstd::slice::slice_subrange;
use vstd::string::{StrSliceExecFns, StringExecFns};
use crate::server::errors::{HttpParseError, ParseFailure};
use crate::server::grammar::{
    after_first_word, blank_index, body_of, body_start, first_word, header_lines, header_pair,
    headers_of, is_header, lemma_blank_index, lemma_blank_index_unique, lemma_body_start_bounds,
    lemma_body_start_skip, marker_len, method_token, parse_request, query_pair, query_pairs,
    query_params, target_path, target_query, target_token, RequestView,
};
use crate::server::methods::{method_of, HttpMethod};
use crate::server::round_trip::{query_piece, render_query, render_request_line};
use crate::server::string_map::{distinct_keys, pairs_map, StringMap};
use crate::split::{lines, slice_views, split, split_lines, split_on};
use crate::text::{
    chars_of, count_leading_whitespace, count_leading_word, find, lemma_find_char, string_of,
    trimmed,
};

verus! {

/// A request as it was read from a connection. It is made once and not changed.
#[derive(Debug, Clone)]
pub struct Request {
    method: HttpMethod,
    path: String,
    headers: StringMap,
    query_params: StringMap,
    body: Vec<u8>,
}

impl View for Request {
    type V = RequestView;

    closed spec fn view(&self) -> RequestView {
        RequestView {
            method: self.method,
            path: self.path@,
            headers: self.headers@,
            query_params: self.query_params@,
            body: self.body@,
        }
    }
}

impl Request {
    /// A request made of its parts.
    pub fn new(
        method: HttpMethod,
        path: String,
        headers: StringMap,
        query_params: StringMap,
        body: Vec<u8>,
    ) -> (req: Request)
        ensures
            req@ == (RequestView {
                method,
                path: path@,
                headers: headers@,
                query_params: query_params@,
                body: body@,
            }),
    {
        Request { method, path, headers, query_params, body }
    }

    /// The method.
    pub fn method(&self) -> (method: &HttpMethod)
        ensures
            *method == self@.method,
    {
        &self.method
    }

    /// The path: the request target without its query string.
    pub fn path(&self) -> (path: &String)
        ensures
            path@ == self@.path,
    {
        &self.path
    }

    /// The headers, under their lower-case names.
    pub fn headers(&self) -> (headers: &StringMap)
        ensures
            headers@ == self@.headers,
    {
        &self.headers
    }

    /// The parameters of the query string.
    pub fn query_params(&self) -> (params: &StringMap)
        ensures
            params@ == self@.query_params,
    {
        &self.query_params
    }

    /// The body.
    pub fn body(&self) -> (body: &Vec<u8>)
        ensures
            body@ == self@.body,
    {
        &self.body
    }

    /// The query parameters with their values, in the order in which the keys first came.
    pub closed spec fn query_pairs(&self) -> Seq<(Seq<char>, Seq<char>)> {
        self.query_params.pairs()
    }

    /// The request line of this request: the method, the path with the query parameters
    /// after a question mark, and the version of the protocol.
    pub fn request_line(&self) -> (line: String)
        ensures
            line@ == render_request_line(self@.method, self@.path, self.query_pairs()),
            pairs_map(self.query_pairs()) == self@.query_params,
            distinct_keys(self.query_pairs()),
    {
        let mut line = String::from_str(self.method.as_str());
        line.push(' ');
        line.append(self.path.as_str());
        line.push('?');
        let ghost start = line@;
        let ghost pairs = self.query_pairs();
        assert(start =~= self@.method.token() + seq![' '] + self@.path + seq!['?']);
        let n = self.query_params.len();
        let mut i: usize = 0;
        assert(pairs.skip(0) =~= pairs);
        while i < n
            invariant
                i <= n,
                n == pairs.len(),
                pairs == self.query_params.pairs(),
                start + render_query(pairs) == line@ + (if 0 < i < n {
                    seq!['&']
                } else {
                    Seq::<char>::empty()
                }) + render_query(pairs.skip(i as int)),
            decreases n - i,
        {
            let (key, value) = self.query_params.entry(i);
            let ghost before = line@;
            let ghost rest = pairs.skip(i as int);
            if i > 0 {
                line.push('&');
            }
            line.append(key.as_str());
            line.push('=');
            line.append(value.as_str());
            proof {
                assert(rest[0] == pairs[i as int]);
                assert(rest.skip(1) =~= pairs.skip(i + 1));
                let sep = if 0 < i {
                    seq!['&']
                } else {
                    Seq::<char>::empty()
                };
                assert(line@ =~= before + sep + query_piece(pairs[i as int]));
                if i + 1 < n {
                    assert(render_query(rest) == query_piece(rest[0]) + seq!['&'] + render_query(
                        rest.skip(1),
                    ));
                    assert(start + render_query(pairs) =~= line@ + seq!['&'] + render_query(
                        pairs.skip(i + 1),
                    ));
                } else {
                    assert(rest.len() == 1);
                    assert(render_query(rest.skip(1)) =~= Seq::<char>::empty());
                    assert(start + render_query(pairs) =~= line@ + Seq::<char>::empty()
                        + render_query(pairs.skip(i + 1)));
                }
            }
            i += 1;
        }
        assert(render_query(pairs.skip(n as int)) =~= Seq::<char>::empty());
        assert(line@ =~= start + render_query(pairs));
        line.append(" HTTP/1.1");
        assert(line@ =~= render_request_line(self@.method, self@.path, pairs));
        line
    }

    /// Reads a request from its text. The result is what [`parse_request`] says of the
    /// text: the request, or the first thing that is wrong with it.
    pub fn try_from(request_str: &str) -> (r: Result<Request, HttpParseError>)
        ensures
            match parse_request(request_str@) {
                Ok(view) => r is Ok && r->Ok_0@ == view,
                Err(failure) => r is Err && r->Err_0@ == failure,
            },
    {
        let chars = chars_of(request_str);
        let ls = split_lines(chars.as_slice());
        let ghost lv = lines(request_str@);
        if ls.len() == 0 {
            return Err(HttpParseError::InvalidFormat);
        }
        assert(lv[0] == ls@[0]@);
        let (method_word, after) = leading_word_of(ls[0]);
        let (target_word, _) = leading_word_of(after);
        if method_word.len() == 0 || target_word.len() == 0 {
            return Err(HttpParseError::InvalidRequestLine);
        }
        let method_text = string_of(method_word);
        let method = match HttpMethod::try_from(method_text.as_str()) {
            Ok(method) => method,
            Err(e) => {
                return Err(e);
            },
        };
        let (path, query_params) = parse_target(target_word);
        let ghost rest = lv.skip(1);
        let mut headers = StringMap::new();
        let mut blank = false;
        let mut i: usize = 1;
        assert(lv.subrange(1, 1).map_values(|line: Seq<char>| header_pair(line)) =~= Seq::empty());
        while i < ls.len()
            invariant_except_break
                !blank,
            invariant
                1 <= i <= ls.len(),
                slice_views(ls@) == lv,
                lv == lines(request_str@),
                method_token(lv[0]).len() != 0,
                target_token(lv[0]).len() != 0,
                method_of(method_token(lv[0])) == Some(method),
                rest == lv.skip(1),
                forall|j: int| 1 <= j < i ==> lv[j].len() != 0 && is_header(lv[j]),
                headers@ == headers_of(lv.subrange(1, i as int)),
            ensures
                blank ==> i < ls.len() && lv[i as int].len() == 0,
                !blank ==> i == ls.len(),
            decreases ls.len() - i,
        {
            let line = ls[i];
            assert(lv[i as int] == line@);
            if line.len() == 0 {
                blank = true;
                break;
            }
            match parse_header_line(line) {
                None => {
                    proof {
                        lemma_blank_index(rest);
                        assert forall|j: int| 0 <= j < i implies rest[j].len() != 0 by {
                            assert(rest[j] == lv[j + 1]);
                        }
                        let block = header_lines(lv);
                        assert(block[i - 1] == lv[i as int]);
                        assert(!is_header(block[i - 1]));
                    }
                    return Err(HttpParseError::InvalidHeader);
                },
                Some((name, value)) => {
                    proof {
                        let before = lv.subrange(1, i as int);
                        let now = lv.subrange(1, i + 1);
                        let f = |line: Seq<char>| header_pair(line);
                        assert(now.map_values(f).drop_last() =~= before.map_values(f));
                        assert(now.map_values(f).last() == header_pair(line@));
                    }
                    headers.insert(name, value);
                },
            }
            i += 1;
        }
        proof {
            assert forall|j: int| 0 <= j < i - 1 implies rest[j].len() != 0 by {
                assert(rest[j] == lv[j + 1]);
            }
            if i < ls.len() {
                assert(rest[i - 1] == lv[i as int]);
            }
            lemma_blank_index_unique(rest, i - 1);
            let block = header_lines(lv);
            assert(block =~= lv.subrange(1, i as int));
            assert forall|j: int| 0 <= j < block.len() implies is_header(#[trigger] block[j]) by {
                assert(block[j] == lv[j + 1]);
            }
        }
        let body = if !blank && (method == HttpMethod::GET || method == HttpMethod::DELETE) {
            Vec::new()
        } else {
            let text = chars.as_slice();
            let start = find_body_start(text);
            let rest = slice_subrange(text, start, text.len());
            assert(rest@ =~= request_str@.skip(start as int));
            string_of(rest).as_str().as_bytes_vec()
        };
        assert(body@ =~= body_of(request_str@, method, lv));
        Ok(Request { method, path, headers, query_params, body })
    }
}

/// The first word of `s`, and what follows it.
fn leading_word_of<'a>(s: &'a [char]) -> (r: (&'a [char], &'a [char]))
    ensures
        r.0@ == first_word(s@),
        r.1@ == after_first_word(s@),
{
    let start = count_leading_whitespace(s);
    let rest = slice_subrange(s, start, s.len());
    assert(rest@ =~= s@.skip(start as int));
    let n = count_leading_word(rest);
    let word = slice_subrange(rest, 0, n);
    let after = slice_subrange(rest, n, rest.len());
    assert(word@ =~= rest@.take(n as int));
    assert(after@ =~= rest@.skip(n as int));
    (word, after)
}

/// The key and the value of one piece of a query string.
fn parse_query_piece(piece: &[char]) -> (r: Option<(String, String)>)
    ensures
        match r {
            Some(pair) => query_pair(piece@) == Some((pair.0@, pair.1@)),
            None => query_pair(piece@) is None,
        },
{
    if piece.len() == 0 {
        return None;
    }
    let e = find(piece, '=');
    proof {
        lemma_find_char(piece@, '=');
    }
    if e < piece.len() {
        let key = slice_subrange(piece, 0, e);
        let value = slice_subrange(piece, e + 1, piece.len());
        assert(key@ =~= piece@.take(e as int));
        assert(value@ =~= piece@.skip(e + 1));
        Some((string_of(key), string_of(value)))
    } else {
        Some((string_of(piece), String::new()))
    }
}

/// The path and the query parameters of a request target.
fn parse_target(target: &[char]) -> (r: (String, StringMap))
    ensures
        r.0@ == target_path(target@),
        r.1@ == query_params(target_query(target@)),
{
    let q = find(target, '?');
    proof {
        lemma_find_char(target@, '?');
    }
    let path_chars = slice_subrange(target, 0, q);
    assert(path_chars@ =~= target@.take(q as int));
    let query = if q < target.len() {
        slice_subrange(target, q + 1, target.len())
    } else {
        slice_subrange(target, q, q)
    };
    assert(query@ =~= target_query(target@));
    let pieces = split_on(query, '&');
    let ghost pv = split(query@, '&');
    let mut params = StringMap::new();
    let mut i: usize = 0;
    assert(pv.take(0) =~= Seq::empty());
    while i < pieces.len()
        invariant
            i <= pieces.len(),
            slice_views(pieces@) == pv,
            params@ == pairs_map(query_pairs(pv.take(i as int))),
        decreases pieces.len() - i,
    {
        let piece = pieces[i];
        assert(pv[i as int] == piece@);
        assert(pv.take(i + 1).drop_last() =~= pv.take(i as int));
        match parse_query_piece(piece) {
            Some((key, value)) => {
                assert(query_pairs(pv.take(i + 1)).drop_last() =~= query_pairs(pv.take(i as int)));
                params.insert(key, value);
            },
            None => {},
        }
        i += 1;
    }
    assert(pv.take(i as int) =~= pv);
    (string_of(path_chars), params)
}

/// The name and the value of a header line, if the line has a colon.
fn parse_header_line(line: &[char]) -> (r: Option<(String, String)>)
    ensures
        match r {
            Some(pair) => is_header(line@) && (pair.0@, pair.1@) == header_pair(line@),
            None => !is_header(line@),
        },
{
    let c = find(line, ':');
    proof {
        lemma_find_char(line@, ':');
    }
    if c >= line.len() {
        return None;
    }
    let name = slice_subrange(line, 0, c);
    let value = slice_subrange(line, c + 1, line.len());
    assert(name@ =~= line@.take(c as int));
    assert(value@ =~= line@.skip(c + 1));
    let name_text = string_of(trimmed(name));
    Some((name_text.as_str().to_lowercase(), string_of(trimmed(value))))
}

/// The place just after the first blank-line marker of `b`, or the length of `b`.
fn find_body_start(b: &[char]) -> (start: usize)
    ensures
        start == body_start(b@),
        start <= b@.len(),
{
    let mut i: usize = 0;
    while i < b.len()
        invariant
            i <= b.len(),
            forall|j: int| 0 <= j < i ==> marker_len(#[trigger] b@.skip(j)) == 0,
        decreases b.len() - i,
    {
        let left = b.len() - i;
        let ghost here = b@.skip(i as int);
        let found: usize = if left >= 4 && b[i] == '\r' && b[i + 1] == '\n' && b[i + 2] == '\r'
            && b[i + 3] == '\n' {
            4
        } else if left >= 2 && b[i] == '\n' && b[i + 1] == '\n' {
            2
        } else {
            0
        };
        assert(found == marker_len(here)) by {
            if left >= 1 {
                assert(here[0] == b@[i as int]);
            }
            if left >= 2 {
                assert(here[1] == b@[i + 1]);
            }
            if left >= 4 {
                assert(here[2] == b@[i + 2]);
                assert(here[3] == b@[i + 3]);
            }
        }
        if found > 0 {
            proof {
                lemma_body_start_skip(b@, i as int);
            }
            return i + found;
        }
        i += 1;
    }
    proof {
        lemma_body_start_skip(b@, i as int);
        lemma_body_start_bounds(b@);
    }
    i
}

/// Parts a request target into its path and its query parameters. Every target can be
/// parted, so the result is never an error.
pub fn parse_url(url_str: &str) -> (r: Result<(String, StringMap), HttpParseError>)
    ensures
        r is Ok,
        r->Ok_0.0@ == target_path(url_str@),
        r->Ok_0.1@ == query_params(target_query(url_str@)),
{
    let chars = chars_of(url_str);
    Ok(parse_target(chars.as_slice()))
}

/// Reads the name and the value of a header line. A line without a colon is refused.
pub fn parse_header(header_line: &str) -> (r: Result<(String, String), HttpParseError>)
    ensures
        match r {
            Ok(pair) => is_header(header_line@) && (pair.0@, pair.1@) == header_pair(
                header_line@,
            ),
            Err(e) => !is_header(header_line@) && e@ == ParseFailure::InvalidHeader,
        },
{
    let chars = chars_of(header_line);
    match parse_header_line(chars.as_slice()) {
        Some(pair) => Ok(pair),
        None => Err(HttpParseError::InvalidHeader),
    }
}

} // verus!
