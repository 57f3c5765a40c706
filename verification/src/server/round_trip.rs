//! Writing a request line out again, and reading it back.
//!
//! What the parser hands out can be written as a request line that the parser reads
//! back to the same method, path and query parameters.

use vstd::prelude::*;
use vstd::utf8::encode_utf8;
use crate::server::grammar::{
    after_first_word, blank_index, body_start, first_word, header_lines, header_pair, headers_of,
    is_header, lemma_body_start_skip, marker_len, method_token, parse_request, query_pair,
    query_pairs, query_params, target_path, target_query, target_token,
};
use crate::server::methods::{method_of, HttpMethod};
use crate::server::string_map::{distinct_keys, lemma_pairs_map_value, pairs_map};
use crate::split::{lines, split, strip_cr};
use crate::text::{
    find_char, is_whitespace, leading_whitespace, lemma_find_char, lemma_find_char_unique,
    lemma_leading_runs, lemma_leading_whitespace, lemma_leading_word,
};

verus! {

/// No character of `s` is whitespace.
pub open spec fn no_whitespace(s: Seq<char>) -> bool {
    forall|i: int| 0 <= i < s.len() ==> !is_whitespace(#[trigger] s[i])
}

/// The character `c` does not occur in `s`.
pub open spec fn lacks(s: Seq<char>, c: char) -> bool {
    forall|i: int| 0 <= i < s.len() ==> #[trigger] s[i] != c
}

/// A path that can stand in a request target as it is: without whitespace and without
/// a question mark.
pub open spec fn is_plain_path(path: Seq<char>) -> bool {
    no_whitespace(path) && lacks(path, '?')
}

/// A key and a value that can stand in a query string as they are: without whitespace
/// and without `&`, and the key without `=`.
pub open spec fn is_plain_pair(pair: (Seq<char>, Seq<char>)) -> bool {
    &&& no_whitespace(pair.0)
    &&& lacks(pair.0, '&')
    &&& lacks(pair.0, '=')
    &&& no_whitespace(pair.1)
    &&& lacks(pair.1, '&')
}

/// Each of `pairs` is a plain pair.
pub open spec fn are_plain_pairs(pairs: Seq<(Seq<char>, Seq<char>)>) -> bool {
    forall|i: int| 0 <= i < pairs.len() ==> is_plain_pair(#[trigger] pairs[i])
}

/// A key and its value as a piece of a query string: `key=value`.
pub open spec fn query_piece(pair: (Seq<char>, Seq<char>)) -> Seq<char> {
    pair.0 + seq!['='] + pair.1
}

/// The query string of the pairs: their pieces in order, with `&` between them.
pub open spec fn render_query(pairs: Seq<(Seq<char>, Seq<char>)>) -> Seq<char>
    decreases pairs.len(),
{
    if pairs.len() == 0 {
        Seq::empty()
    } else if pairs.len() == 1 {
        query_piece(pairs[0])
    } else {
        query_piece(pairs[0]) + seq!['&'] + render_query(pairs.skip(1))
    }
}

/// The request target of a path and the pairs of a query: `path?query`.
pub open spec fn render_target(path: Seq<char>, pairs: Seq<(Seq<char>, Seq<char>)>) -> Seq<char> {
    path + seq!['?'] + render_query(pairs)
}

/// The request line of a method, a path and the pairs of a query.
pub open spec fn render_request_line(
    method: HttpMethod,
    path: Seq<char>,
    pairs: Seq<(Seq<char>, Seq<char>)>,
) -> Seq<char> {
    method.token() + seq![' '] + render_target(path, pairs) + " HTTP/1.1"@
}

/// The text of a request without headers and without body: the request line and an
/// empty line.
pub open spec fn render_request(
    method: HttpMethod,
    path: Seq<char>,
    pairs: Seq<(Seq<char>, Seq<char>)>,
) -> Seq<char> {
    render_request_line(method, path, pairs) + seq!['\r', '\n', '\r', '\n']
}

/// A character that `s` lacks is found at the end of `s`.
pub proof fn lemma_find_absent(s: Seq<char>, c: char)
    requires
        lacks(s, c),
    ensures
        find_char(s, c) == s.len(),
{
    lemma_find_char_unique(s, c, s.len() as int);
}

/// In `a`, then `c`, then `b`, where `a` lacks `c`, the first `c` stands right after `a`.
pub proof fn lemma_find_after(a: Seq<char>, c: char, b: Seq<char>)
    requires
        lacks(a, c),
    ensures
        find_char(a + seq![c] + b, c) == a.len(),
        (a + seq![c] + b).take(a.len() as int) == a,
        (a + seq![c] + b).skip(a.len() as int + 1) == b,
{
    let s = a + seq![c] + b;
    assert forall|j: int| 0 <= j < a.len() implies s[j] != c by {
        assert(s[j] == a[j]);
    }
    assert(s[a.len() as int] == c);
    lemma_find_char_unique(s, c, a.len() as int);
    assert(s.take(a.len() as int) =~= a);
    assert(s.skip(a.len() as int + 1) =~= b);
}

/// A text that lacks the separator is one piece.
pub proof fn lemma_split_one(p: Seq<char>, sep: char)
    requires
        lacks(p, sep),
    ensures
        split(p, sep) == seq![p],
{
    lemma_find_absent(p, sep);
}

/// A piece that lacks the separator, the separator, and more text: the piece comes
/// first, and the pieces of the rest follow.
pub proof fn lemma_split_first(p: Seq<char>, sep: char, rest: Seq<char>)
    requires
        lacks(p, sep),
    ensures
        split(p + seq![sep] + rest, sep) == seq![p] + split(rest, sep),
{
    lemma_find_after(p, sep, rest);
}

/// Each piece of a split lacks the separator, and has no whitespace where the text has
/// none.
pub proof fn lemma_split_pieces(s: Seq<char>, sep: char)
    ensures
        forall|i: int| 0 <= i < split(s, sep).len() ==> lacks(#[trigger] split(s, sep)[i], sep),
        no_whitespace(s) ==> forall|i: int|
            0 <= i < split(s, sep).len() ==> no_whitespace(#[trigger] split(s, sep)[i]),
    decreases s.len(),
{
    lemma_find_char(s, sep);
    let n = find_char(s, sep);
    if n < s.len() {
        let head = s.take(n);
        let rest = s.skip(n + 1);
        lemma_split_pieces(rest, sep);
        assert forall|j: int| 0 <= j < head.len() implies s[j] == #[trigger] head[j] by {}
        assert(lacks(head, sep));
        if no_whitespace(s) {
            assert forall|j: int| 0 <= j < rest.len() implies !is_whitespace(#[trigger] rest[j]) by {
                assert(rest[j] == s[j + n + 1]);
            }
            assert forall|j: int| 0 <= j < head.len() implies !is_whitespace(#[trigger] head[j]) by {
                assert(head[j] == s[j]);
            }
        }
        let pieces = split(s, sep);
        assert forall|i: int| 0 <= i < pieces.len() implies lacks(#[trigger] pieces[i], sep) by {
            if i > 0 {
                assert(pieces[i] == split(rest, sep)[i - 1]);
            }
        }
        if no_whitespace(s) {
            assert forall|i: int| 0 <= i < pieces.len() implies no_whitespace(
                #[trigger] pieces[i],
            ) by {
                if i > 0 {
                    assert(pieces[i] == split(rest, sep)[i - 1]);
                }
            }
        }
    } else {
        assert(lacks(s, sep));
    }
}

/// The piece of a plain pair stands for that pair, lacks `&` and has no whitespace.
pub proof fn lemma_query_piece(pair: (Seq<char>, Seq<char>))
    requires
        is_plain_pair(pair),
    ensures
        query_pair(query_piece(pair)) == Some(pair),
        lacks(query_piece(pair), '&'),
        no_whitespace(query_piece(pair)),
{
    lemma_find_after(pair.0, '=', pair.1);
    let piece = query_piece(pair);
    assert forall|i: int| 0 <= i < piece.len() implies piece[i] != '&' && !is_whitespace(
        piece[i],
    ) by {
        if i < pair.0.len() {
            assert(piece[i] == pair.0[i]);
        } else if i > pair.0.len() {
            assert(piece[i] == pair.1[i - pair.0.len() - 1]);
        }
    }
}

/// The query string of plain pairs has no whitespace.
pub proof fn lemma_render_query_no_whitespace(pairs: Seq<(Seq<char>, Seq<char>)>)
    requires
        are_plain_pairs(pairs),
    ensures
        no_whitespace(render_query(pairs)),
    decreases pairs.len(),
{
    if pairs.len() == 1 {
        lemma_query_piece(pairs[0]);
    } else if pairs.len() > 1 {
        lemma_query_piece(pairs[0]);
        let rest = pairs.skip(1);
        assert forall|i: int| 0 <= i < rest.len() implies is_plain_pair(#[trigger] rest[i]) by {
            assert(rest[i] == pairs[i + 1]);
        }
        lemma_render_query_no_whitespace(rest);
        let piece = query_piece(pairs[0]);
        let tail = render_query(rest);
        let q = render_query(pairs);
        assert forall|i: int| 0 <= i < q.len() implies !is_whitespace(#[trigger] q[i]) by {
            if i < piece.len() {
                assert(q[i] == piece[i]);
            } else if i > piece.len() {
                assert(q[i] == tail[i - piece.len() - 1]);
            }
        }
    }
}

/// The pieces of the query string of plain pairs are the pieces of the pairs, in order.
pub proof fn lemma_split_render_query(pairs: Seq<(Seq<char>, Seq<char>)>)
    requires
        are_plain_pairs(pairs),
        pairs.len() > 0,
    ensures
        split(render_query(pairs), '&') == pairs.map_values(
            |pair: (Seq<char>, Seq<char>)| query_piece(pair),
        ),
    decreases pairs.len(),
{
    let f = |pair: (Seq<char>, Seq<char>)| query_piece(pair);
    lemma_query_piece(pairs[0]);
    if pairs.len() == 1 {
        lemma_split_one(query_piece(pairs[0]), '&');
        assert(seq![query_piece(pairs[0])] =~= pairs.map_values(f));
    } else {
        let rest = pairs.skip(1);
        assert forall|i: int| 0 <= i < rest.len() implies is_plain_pair(#[trigger] rest[i]) by {
            assert(rest[i] == pairs[i + 1]);
        }
        lemma_split_render_query(rest);
        lemma_split_first(query_piece(pairs[0]), '&', render_query(rest));
        assert(seq![query_piece(pairs[0])] + rest.map_values(f) =~= pairs.map_values(f));
    }
}

/// The pieces of plain pairs stand for those pairs.
pub proof fn lemma_query_pairs_of_pieces(pairs: Seq<(Seq<char>, Seq<char>)>)
    requires
        are_plain_pairs(pairs),
    ensures
        query_pairs(pairs.map_values(|pair: (Seq<char>, Seq<char>)| query_piece(pair))) == pairs,
    decreases pairs.len(),
{
    let f = |pair: (Seq<char>, Seq<char>)| query_piece(pair);
    let pieces = pairs.map_values(f);
    if pairs.len() == 0 {
        assert(query_pairs(pieces) =~= pairs);
    } else {
        let before = pairs.drop_last();
        assert forall|i: int| 0 <= i < before.len() implies is_plain_pair(#[trigger] before[i]) by {
            assert(before[i] == pairs[i]);
        }
        lemma_query_pairs_of_pieces(before);
        assert(pieces.drop_last() =~= before.map_values(f));
        assert(pieces.last() == query_piece(pairs.last()));
        lemma_query_piece(pairs.last());
        assert(before.push(pairs.last()) =~= pairs);
    }
}

/// The query string of plain pairs is read back as the map of those pairs.
pub proof fn lemma_query_round_trip(pairs: Seq<(Seq<char>, Seq<char>)>)
    requires
        are_plain_pairs(pairs),
    ensures
        query_params(render_query(pairs)) == pairs_map(pairs),
{
    if pairs.len() == 0 {
        let pieces = split(render_query(pairs), '&');
        lemma_split_one(Seq::<char>::empty(), '&');
        assert(pieces.drop_last() =~= Seq::<Seq<char>>::empty());
        assert(query_pairs(pieces.drop_last()) =~= Seq::empty());
        assert(query_pairs(pieces) =~= pairs);
    } else {
        lemma_split_render_query(pairs);
        lemma_query_pairs_of_pieces(pairs);
    }
}

/// A word, followed by nothing or by whitespace, is the first word of the text, and what
/// follows the word is what follows the first word.
pub proof fn lemma_first_word(word: Seq<char>, rest: Seq<char>)
    requires
        word.len() > 0,
        no_whitespace(word),
        rest.len() > 0 ==> is_whitespace(rest[0]),
    ensures
        first_word(word + rest) == word,
        after_first_word(word + rest) == rest,
{
    let s = word + rest;
    assert(s[0] == word[0]);
    lemma_leading_whitespace(s, 0);
    assert(s.skip(0) =~= s);
    assert forall|j: int| 0 <= j < word.len() implies !is_whitespace(s[j]) by {
        assert(s[j] == word[j]);
    }
    if rest.len() > 0 {
        assert(s[word.len() as int] == rest[0]);
    }
    lemma_leading_word(s, word.len() as int);
    assert(s.take(word.len() as int) =~= word);
    assert(s.skip(word.len() as int) =~= rest);
}

/// Whitespace before a text changes neither its first word nor what follows that word.
pub proof fn lemma_skip_leading_space(c: char, s: Seq<char>)
    requires
        is_whitespace(c),
    ensures
        first_word(seq![c] + s) == first_word(s),
        after_first_word(seq![c] + s) == after_first_word(s),
{
    let t = seq![c] + s;
    assert(t[0] == c);
    assert(t.skip(1) =~= s);
    lemma_leading_runs(s);
    let n = leading_whitespace(s);
    assert(leading_whitespace(t) == 1 + n);
    assert(t.skip(1 + n) =~= s.skip(n));
}

/// A text without line feed, followed by two line endings, has two lines: the text and
/// an empty line.
pub proof fn lemma_lines_of_request(line: Seq<char>)
    requires
        lacks(line, '\n'),
    ensures
        lines(line + seq!['\r', '\n', '\r', '\n']) == seq![line, Seq::<char>::empty()],
{
    let s = line + seq!['\r', '\n', '\r', '\n'];
    let n = line.len() as int + 1;
    assert forall|j: int| 0 <= j < n implies s[j] != '\n' by {
        if j < line.len() {
            assert(s[j] == line[j]);
        }
    }
    assert(s[n] == '\n');
    lemma_find_char_unique(s, '\n', n);
    assert(s.take(n) =~= line.push('\r'));
    assert(line.push('\r').drop_last() =~= line);
    assert(strip_cr(s.take(n)) == line);
    let r = s.skip(n + 1);
    assert(r =~= seq!['\r', '\n']);
    assert(r[0] != '\n' && r[1] == '\n');
    lemma_find_char_unique(r, '\n', 1);
    assert(r.take(1) =~= seq!['\r']);
    assert(seq!['\r'].drop_last() =~= Seq::<char>::empty());
    assert(strip_cr(r.take(1)) =~= Seq::<char>::empty());
    assert(r.skip(2) =~= Seq::<char>::empty());
    assert(lines(r.skip(2)) =~= Seq::<Seq<char>>::empty());
    assert(lines(r) =~= seq![Seq::<char>::empty()]);
    assert(lines(s) =~= seq![line, Seq::<char>::empty()]);
}

/// The token of a method is a word, and it stands for the method.
pub proof fn lemma_method_token(method: HttpMethod)
    ensures
        method.token().len() > 0,
        no_whitespace(method.token()),
        method_of(method.token()) == Some(method),
{
    reveal_strlit("GET");
    reveal_strlit("POST");
    reveal_strlit("PUT");
    reveal_strlit("DELETE");
    assert("GET"@.len() != "POST"@.len());
    assert("GET"@[0] != "PUT"@[0]);
    assert("GET"@.len() != "DELETE"@.len());
    assert("POST"@.len() != "PUT"@.len());
    assert("POST"@.len() != "DELETE"@.len());
    assert("PUT"@.len() != "DELETE"@.len());
}

/// The target of a plain path and plain pairs is a word, and it is parted into that
/// path and the query string of those pairs.
pub proof fn lemma_target_round_trip(path: Seq<char>, pairs: Seq<(Seq<char>, Seq<char>)>)
    requires
        is_plain_path(path),
        are_plain_pairs(pairs),
    ensures
        render_target(path, pairs).len() > 0,
        no_whitespace(render_target(path, pairs)),
        target_path(render_target(path, pairs)) == path,
        target_query(render_target(path, pairs)) == render_query(pairs),
        query_params(target_query(render_target(path, pairs))) == pairs_map(pairs),
{
    let query = render_query(pairs);
    let target = render_target(path, pairs);
    lemma_find_after(path, '?', query);
    lemma_render_query_no_whitespace(pairs);
    lemma_query_round_trip(pairs);
    assert forall|i: int| 0 <= i < target.len() implies !is_whitespace(#[trigger] target[i]) by {
        if i < path.len() {
            assert(target[i] == path[i]);
        } else if i > path.len() {
            assert(target[i] == query[i - path.len() - 1]);
        }
    }
}

/// The request that is written for a method, a plain path and plain pairs is read back
/// as a request with that method, that path, the map of those pairs and no header.
pub proof fn lemma_rendered_request_parses(
    method: HttpMethod,
    path: Seq<char>,
    pairs: Seq<(Seq<char>, Seq<char>)>,
)
    requires
        is_plain_path(path),
        are_plain_pairs(pairs),
    ensures
        parse_request(render_request(method, path, pairs)) is Ok,
        parse_request(render_request(method, path, pairs))->Ok_0.method == method,
        parse_request(render_request(method, path, pairs))->Ok_0.path == path,
        parse_request(render_request(method, path, pairs))->Ok_0.query_params == pairs_map(pairs),
        parse_request(render_request(method, path, pairs))->Ok_0.headers == Map::<
            Seq<char>,
            Seq<char>,
        >::empty(),
        parse_request(render_request(method, path, pairs))->Ok_0.body == Seq::<u8>::empty(),
{
    reveal_strlit(" HTTP/1.1");
    let token = method.token();
    let target = render_target(path, pairs);
    let version = " HTTP/1.1"@;
    let line = render_request_line(method, path, pairs);
    lemma_method_token(method);
    lemma_target_round_trip(path, pairs);
    // The request line has no line feed, so the text has two lines.
    assert forall|i: int| 0 <= i < line.len() implies line[i] != '\n' by {
        if i < token.len() {
            assert(line[i] == token[i]);
        } else if i == token.len() {
            assert(line[i] == ' ');
        } else if i < token.len() + 1 + target.len() {
            assert(line[i] == target[i - token.len() - 1]);
        } else {
            assert(line[i] == version[i - token.len() - 1 - target.len()]);
        }
    }
    lemma_lines_of_request(line);
    let ls = lines(render_request(method, path, pairs));
    assert(ls[0] == line);
    // The first word of the request line is the token of the method.
    let after_token = seq![' '] + (target + version);
    assert(line =~= token + after_token);
    assert(after_token[0] == ' ');
    lemma_first_word(token, after_token);
    // Its second word is the target.
    assert(version[0] == ' ');
    lemma_skip_leading_space(' ', target + version);
    lemma_first_word(target, version);
    assert(target_token(line) == target);
    // No header line stands before the empty line.
    let rest = ls.skip(1);
    assert(rest =~= seq![Seq::<char>::empty()]);
    assert(blank_index(rest) == 0);
    let block = header_lines(ls);
    assert(block =~= Seq::<Seq<char>>::empty());
    assert(block.map_values(|l: Seq<char>| header_pair(l)) =~= Seq::<
        (Seq<char>, Seq<char>),
    >::empty());
    // The only blank-line marker is the end of the text, so nothing follows it.
    let text = render_request(method, path, pairs);
    let end = seq!['\r', '\n', '\r', '\n'];
    assert forall|j: int| 0 <= j < line.len() implies marker_len(#[trigger] text.skip(j)) == 0 by {
        let here = text.skip(j);
        assert(here[0] == line[j]);
        if j + 1 < line.len() {
            assert(here[1] == line[j + 1]);
        } else {
            assert(here[1] == end[0]);
        }
    }
    lemma_body_start_skip(text, line.len() as int);
    assert(text.skip(line.len() as int) =~= end);
    assert(body_start(end) == 4);
    assert(text.skip(text.len() as int) =~= Seq::<char>::empty());
    assert(encode_utf8(Seq::<char>::empty()) =~= Seq::<u8>::empty());
}

/// The key and the value that a piece without `&` and without whitespace stands for are
/// a plain pair.
pub proof fn lemma_query_pair_is_plain(piece: Seq<char>)
    requires
        lacks(piece, '&'),
        no_whitespace(piece),
        query_pair(piece) is Some,
    ensures
        is_plain_pair(query_pair(piece)->Some_0),
{
    lemma_find_char(piece, '=');
    let e = find_char(piece, '=');
    let pair = query_pair(piece)->Some_0;
    if e < piece.len() {
        assert forall|i: int| 0 <= i < pair.0.len() implies pair.0[i] == piece[i] by {}
        assert forall|i: int| 0 <= i < pair.1.len() implies pair.1[i] == piece[i + e + 1] by {}
        assert(no_whitespace(pair.0));
        assert(lacks(pair.0, '&'));
        assert(lacks(pair.0, '='));
        assert(no_whitespace(pair.1));
        assert(lacks(pair.1, '&'));
    } else {
        assert(pair.0 == piece);
    }
}

/// The pairs that pieces without `&` and without whitespace stand for are plain.
pub proof fn lemma_query_pairs_are_plain(pieces: Seq<Seq<char>>)
    requires
        forall|i: int| 0 <= i < pieces.len() ==> lacks(#[trigger] pieces[i], '&'),
        forall|i: int| 0 <= i < pieces.len() ==> no_whitespace(#[trigger] pieces[i]),
    ensures
        are_plain_pairs(query_pairs(pieces)),
    decreases pieces.len(),
{
    if pieces.len() > 0 {
        let before = pieces.drop_last();
        assert forall|i: int| 0 <= i < before.len() implies lacks(#[trigger] before[i], '&')
            && no_whitespace(before[i]) by {
            assert(before[i] == pieces[i]);
        }
        lemma_query_pairs_are_plain(before);
        let last = pieces.last();
        assert(lacks(last, '&') && no_whitespace(last));
        if query_pair(last) is Some {
            lemma_query_pair_is_plain(last);
        }
    }
}

/// Each key of the map of a list of pairs is the key of one of the pairs, and its value
/// in the map is that pair's value.
pub proof fn lemma_pairs_map_entry(p: Seq<(Seq<char>, Seq<char>)>, k: Seq<char>)
    requires
        pairs_map(p).contains_key(k),
    ensures
        exists|i: int| 0 <= i < p.len() && #[trigger] p[i] == (k, pairs_map(p)[k]),
    decreases p.len(),
{
    if p.len() > 0 {
        let q = p.drop_last();
        if p.last().0 == k {
            assert(p[p.len() - 1] == (k, pairs_map(p)[k]));
        } else {
            lemma_pairs_map_entry(q, k);
            let i = choose|i: int| 0 <= i < q.len() && #[trigger] q[i] == (k, pairs_map(q)[k]);
            assert(p[i] == q[i]);
        }
    }
}

/// What the parser hands out is plain: the path has no whitespace and no question mark,
/// and each query parameter is a plain pair.
pub proof fn lemma_parsed_request_is_plain(input: Seq<char>)
    requires
        parse_request(input) is Ok,
    ensures
        is_plain_path(parse_request(input)->Ok_0.path),
        forall|k: Seq<char>| #[trigger]
            parse_request(input)->Ok_0.query_params.contains_key(k) ==> is_plain_pair(
                (k, parse_request(input)->Ok_0.query_params[k]),
            ),
{
    let ls = lines(input);
    let after = after_first_word(ls[0]);
    let target = target_token(ls[0]);
    // The target is a word.
    let skipped = after.skip(leading_whitespace(after));
    lemma_leading_runs(after);
    lemma_leading_runs(skipped);
    assert forall|i: int| 0 <= i < target.len() implies !is_whitespace(#[trigger] target[i]) by {
        assert(target[i] == skipped[i]);
    }
    // The path is what stands before its first question mark.
    lemma_find_char(target, '?');
    let q = find_char(target, '?');
    let path = target_path(target);
    assert forall|i: int| 0 <= i < path.len() implies !is_whitespace(#[trigger] path[i])
        && path[i] != '?' by {
        assert(path[i] == target[i]);
    }
    // The query is a part of the target, and its pieces are parts of it.
    let query = target_query(target);
    assert forall|i: int| 0 <= i < query.len() implies !is_whitespace(#[trigger] query[i]) by {
        assert(query[i] == target[i + q + 1]);
    }
    lemma_split_pieces(query, '&');
    let pairs = query_pairs(split(query, '&'));
    lemma_query_pairs_are_plain(split(query, '&'));
    assert forall|k: Seq<char>| #[trigger] pairs_map(pairs).contains_key(k) implies is_plain_pair(
        (k, pairs_map(pairs)[k]),
    ) by {
        lemma_pairs_map_entry(pairs, k);
    }
}

/// A request that was parsed can be written out as a request line that is parsed to the
/// same method, the same path and the same query parameters. `pairs` is the order in
/// which the query parameters are written: any list of them without repetition.
pub proof fn lemma_request_line_round_trip(input: Seq<char>, pairs: Seq<(Seq<char>, Seq<char>)>)
    requires
        parse_request(input) is Ok,
        distinct_keys(pairs),
        pairs_map(pairs) == parse_request(input)->Ok_0.query_params,
    ensures
        ({
            let parsed = parse_request(input)->Ok_0;
            let again = parse_request(render_request(parsed.method, parsed.path, pairs));
            &&& again is Ok
            &&& again->Ok_0.method == parsed.method
            &&& again->Ok_0.path == parsed.path
            &&& again->Ok_0.query_params == parsed.query_params
        }),
{
    let parsed = parse_request(input)->Ok_0;
    lemma_parsed_request_is_plain(input);
    assert forall|i: int| 0 <= i < pairs.len() implies is_plain_pair(#[trigger] pairs[i]) by {
        lemma_pairs_map_value(pairs, i);
        assert(parsed.query_params.contains_key(pairs[i].0));
    }
    lemma_rendered_request_parses(parsed.method, parsed.path, pairs);
}

/// A text with a request line of a known method and a target, whose header lines all
/// have a colon, is parsed to a request, whether or not an empty line ends the headers.
pub proof fn lemma_well_formed_request_parses(input: Seq<char>)
    requires
        lines(input).len() > 0,
        method_token(lines(input)[0]).len() > 0,
        target_token(lines(input)[0]).len() > 0,
        method_of(method_token(lines(input)[0])) is Some,
        forall|i: int|
            0 <= i < header_lines(lines(input)).len() ==> is_header(
                #[trigger] header_lines(lines(input))[i],
            ),
    ensures
        parse_request(input) is Ok,
        parse_request(input)->Ok_0.method == method_of(method_token(lines(input)[0]))->Some_0,
        parse_request(input)->Ok_0.path == target_path(target_token(lines(input)[0])),
        parse_request(input)->Ok_0.query_params == query_params(
            target_query(target_token(lines(input)[0])),
        ),
        parse_request(input)->Ok_0.headers == headers_of(header_lines(lines(input))),
{
}

} // verus!
