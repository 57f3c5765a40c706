//! Finding the body in the bytes of a response.
//!
//! A reader of a response takes what follows the first blank-line marker as the body.
//! The laws here say when that is the body that was written, and that the
//! `Content-Length` that was written is its length.

use vstd::prelude::*;
use vstd::utf8::{
    char_is_scalar, char_u32_cast, encode_scalar, encode_utf8, has_width_1_encoding,
    has_width_2_encoding, has_width_3_encoding,
};
use crate::decimal::{decimal, decimal_value, digit_value, lemma_decimal_digits};
use crate::server::grammar::marker_len;
use crate::server::round_trip::lacks;
use crate::server::response::{
    header_block, header_line, lemma_content_length_is_body_length, status_line, ResponseView,
};

verus! {

/// The length of the blank-line marker that the bytes `b` begin with: 4 for CR LF CR LF,
/// 2 for LF LF, 0 when `b` begins with neither.
pub open spec fn byte_marker_len(b: Seq<u8>) -> int {
    if b.len() >= 4 && b[0] == 13 && b[1] == 10 && b[2] == 13 && b[3] == 10 {
        4
    } else if b.len() >= 2 && b[0] == 10 && b[1] == 10 {
        2
    } else {
        0
    }
}

/// The index just after the first blank-line marker of the bytes `b`, or `b.len()` when
/// `b` holds no marker.
pub open spec fn byte_body_start(b: Seq<u8>) -> int
    decreases b.len(),
{
    if b.len() == 0 {
        0
    } else if byte_marker_len(b) > 0 {
        byte_marker_len(b)
    } else {
        1 + byte_body_start(b.skip(1))
    }
}

/// Where no marker begins in the first `i` places of `b`, the search goes on at `i`.
pub proof fn lemma_byte_body_start_skip(b: Seq<u8>, i: int)
    requires
        0 <= i <= b.len(),
        forall|j: int| 0 <= j < i ==> byte_marker_len(#[trigger] b.skip(j)) == 0,
    ensures
        byte_body_start(b) == i + byte_body_start(b.skip(i)),
    decreases i,
{
    if i > 0 {
        assert(byte_marker_len(b.skip(0)) == 0);
        assert(b.skip(0) =~= b);
        let t = b.skip(1);
        assert forall|j: int| 0 <= j < i - 1 implies byte_marker_len(#[trigger] t.skip(j)) == 0 by {
            assert(t.skip(j) =~= b.skip(j + 1));
        }
        lemma_byte_body_start_skip(t, i - 1);
        assert(t.skip(i - 1) =~= b.skip(i));
    } else {
        assert(b.skip(0) =~= b);
    }
}

/// The bytes of one character in UTF-8: a character below 128 is the one byte of its
/// code, and every byte of any other character is 128 or more.
pub proof fn lemma_char_bytes(c: char)
    ensures
        1 <= encode_scalar(c as u32).len() <= 4,
        (c as u32) < 0x80 ==> encode_scalar(c as u32) == seq![c as u8],
        (c as u32) >= 0x80 ==> forall|i: int|
            0 <= i < encode_scalar(c as u32).len() ==> #[trigger] encode_scalar(c as u32)[i]
                >= 0x80,
{
    let s = c as u32;
    char_is_scalar(c);
    let e = encode_scalar(s);
    if has_width_1_encoding(s) {
        assert((s & 0x7F) as u8 == s as u8) by (bit_vector)
            requires
                s <= 0x7F,
        ;
        assert(e =~= seq![c as u8]);
    } else {
        assert((0x80u8 | (s & 0x3F) as u8) >= 0x80) by (bit_vector);
        assert((0x80u8 | ((s >> 6) & 0x3F) as u8) >= 0x80) by (bit_vector);
        assert((0x80u8 | ((s >> 12) & 0x3F) as u8) >= 0x80) by (bit_vector);
        assert((0xC0u8 | ((s >> 6) & 0x1F) as u8) >= 0x80) by (bit_vector);
        assert((0xE0u8 | ((s >> 12) & 0x0F) as u8) >= 0x80) by (bit_vector);
        assert((0xF0u8 | ((s >> 18) & 0x7) as u8) >= 0x80) by (bit_vector);
        if has_width_2_encoding(s) {
            assert forall|i: int| 0 <= i < e.len() implies #[trigger] e[i] >= 0x80 by {}
        } else if has_width_3_encoding(s) {
            assert forall|i: int| 0 <= i < e.len() implies #[trigger] e[i] >= 0x80 by {}
        } else {
            assert forall|i: int| 0 <= i < e.len() implies #[trigger] e[i] >= 0x80 by {}
        }
    }
}

/// The byte of a character below 128 is its code.
proof fn lemma_small_char(c: char)
    requires
        (c as u32) < 0x80,
    ensures
        c as u8 == c as u32,
{
}

/// The first byte of the bytes of a text, followed by any bytes: a byte below 128 is the
/// code of the first character, and the bytes of the rest of the text follow it.
pub proof fn lemma_first_byte(s: Seq<char>, t: Seq<u8>)
    requires
        s.len() > 0,
    ensures
        (encode_utf8(s) + t).len() > 0,
        encode_utf8(s) + t == encode_scalar(s[0] as u32) + (encode_utf8(s.drop_first()) + t),
        (encode_utf8(s) + t)[0] < 0x80 ==> (s[0] as u32) == (encode_utf8(s) + t)[0] && (encode_utf8(
            s,
        ) + t).skip(1) == encode_utf8(s.drop_first()) + t,
        (s[0] as u32) >= 0x80 ==> (encode_utf8(s) + t)[0] >= 0x80,
{
    let e = encode_scalar(s[0] as u32);
    let b = encode_utf8(s) + t;
    lemma_char_bytes(s[0]);
    assert(b =~= e + (encode_utf8(s.drop_first()) + t));
    assert(b[0] == e[0]);
    let u = s[0] as u32;
    if u < 0x80 {
        assert(b.skip(1) =~= encode_utf8(s.drop_first()) + t);
        assert(b[0] == s[0] as u8);
        lemma_small_char(s[0]);
    }
}

/// A character with the code of a carriage return or of a line feed is that character.
proof fn lemma_line_end_codes(c: char)
    ensures
        c as u32 == 13 ==> c == '\r',
        c as u32 == 10 ==> c == '\n',
{
    char_u32_cast(c, c as u32);
    char_u32_cast('\r', 13u32);
    char_u32_cast('\n', 10u32);
}

/// The four characters of the marker that ends a head.
pub open spec fn head_end() -> Seq<char> {
    seq!['\r', '\n', '\r', '\n']
}

/// A marker at the beginning of the bytes of a text is a marker at the beginning of the
/// text.
pub proof fn lemma_byte_marker_is_marker(h: Seq<char>, t: Seq<u8>)
    requires
        h.len() >= 4,
        byte_marker_len(encode_utf8(h) + t) > 0,
    ensures
        marker_len(h) > 0,
{
    let b0 = encode_utf8(h) + t;
    let h1 = h.drop_first();
    let h2 = h1.drop_first();
    let h3 = h2.drop_first();
    lemma_first_byte(h, t);
    let b1 = encode_utf8(h1) + t;
    lemma_first_byte(h1, t);
    assert(b0[1] == b0.skip(1)[0]);
    assert(h[1] == h1[0]);
    if byte_marker_len(b0) == 4 {
        let b2 = encode_utf8(h2) + t;
        lemma_first_byte(h2, t);
        assert(b1[1] == b1.skip(1)[0]);
        assert(b0[2] == b0.skip(1)[1]);
        lemma_first_byte(h3, t);
        assert(b2[1] == b2.skip(1)[0]);
        assert(b0[3] == b0.skip(1)[2]);
        assert(b1[2] == b1.skip(1)[1]);
        assert(h[2] == h2[0]);
        assert(h[3] == h3[0]);
        assert(h[0] as u32 == 13 && h[1] as u32 == 10 && h[2] as u32 == 13 && h[3] as u32 == 10);
        lemma_line_end_codes(h[2]);
        lemma_line_end_codes(h[3]);
    } else {
        assert(h[0] as u32 == 10 && h[1] as u32 == 10);
    }
    lemma_line_end_codes(h[0]);
    lemma_line_end_codes(h[1]);
}

/// In the bytes of a text that ends with a blank-line marker and holds no other marker
/// before it, followed by any bytes, the first marker is the one that ends the text.
pub proof fn lemma_marker_in_bytes(g: Seq<char>, t: Seq<u8>)
    requires
        forall|j: int| 0 <= j < g.len() ==> marker_len(#[trigger] (g + head_end()).skip(j)) == 0,
    ensures
        byte_body_start(encode_utf8(g + head_end()) + t) == encode_utf8(g + head_end()).len(),
    decreases g.len(),
{
    let h = g + head_end();
    let bytes = encode_utf8(h) + t;
    if g.len() == 0 {
        assert(h =~= head_end());
        let h1 = h.drop_first();
        let h2 = h1.drop_first();
        let h3 = h2.drop_first();
        lemma_first_byte(h, t);
        lemma_first_byte(h1, t);
        lemma_first_byte(h2, t);
        lemma_first_byte(h3, t);
        lemma_char_bytes('\r');
        lemma_char_bytes('\n');
        assert(h3.drop_first() =~= Seq::<char>::empty());
        assert(encode_utf8(h3.drop_first()) =~= Seq::<u8>::empty());
        assert(encode_utf8(h3) =~= seq![10u8]);
        assert(encode_utf8(h2) =~= seq![13u8, 10u8]);
        assert(encode_utf8(h1) =~= seq![10u8, 13u8, 10u8]);
        assert(encode_utf8(h) =~= seq![13u8, 10u8, 13u8, 10u8]);
        assert(bytes[0] == 13 && bytes[1] == 10 && bytes[2] == 13 && bytes[3] == 10);
    } else {
        let c = h[0];
        let e = encode_scalar(c as u32);
        let w = e.len() as int;
        let rest = h.drop_first();
        let tail = encode_utf8(rest) + t;
        lemma_char_bytes(c);
        lemma_first_byte(h, t);
        assert(rest =~= g.drop_first() + head_end());
        assert(marker_len(h.skip(0)) == 0);
        assert(h.skip(0) =~= h);
        assert forall|q: int| 0 <= q < w implies byte_marker_len(#[trigger] bytes.skip(q)) == 0 by {
            let here = bytes.skip(q);
            assert(here[0] == bytes[q]);
            if q == 0 {
                assert(here =~= bytes);
                if byte_marker_len(bytes) > 0 {
                    lemma_byte_marker_is_marker(h, t);
                }
            } else {
                assert(bytes[q] == e[q]);
            }
        }
        lemma_byte_body_start_skip(bytes, w);
        assert(bytes.skip(w) =~= tail);
        let g1 = g.drop_first();
        assert forall|j: int| 0 <= j < g1.len() implies marker_len(
            #[trigger] (g1 + head_end()).skip(j),
        ) == 0 by {
            assert((g1 + head_end()).skip(j) =~= h.skip(j + 1));
        }
        lemma_marker_in_bytes(g1, t);
        assert(encode_utf8(h) =~= e + encode_utf8(rest));
    }
}

/// Whether the head of the response holds no blank-line marker but the one that ends it.
/// A status text or a header with an empty line in it breaks this.
pub open spec fn has_one_blank_line(resp: ResponseView) -> bool {
    forall|j: int|
        0 <= j < resp.head().len() - 4 ==> marker_len(#[trigger] resp.head().skip(j)) == 0
}

/// The head of a response ends with a blank-line marker.
pub proof fn lemma_head_ends_with_marker(resp: ResponseView)
    ensures
        resp.head().len() >= 4,
        resp.head() == resp.head().take(resp.head().len() - 4) + head_end(),
{
    reveal_strlit("\r\n");
    let crlf = "\r\n"@;
    let first = status_line(resp.status_code, resp.status_text);
    let block = header_block(resp.headers);
    let length = resp.content_length_line();
    let before = first + block + length;
    assert(first.len() >= 2 && first[first.len() - 2] == '\r' && first[first.len() - 1] == '\n');
    assert(block.len() == 0 || (block.len() >= 2 && block[block.len() - 2] == '\r' && block[block.len()
        - 1] == '\n')) by {
        if resp.headers.len() > 0 {
            let line = header_line(resp.headers.last().0, resp.headers.last().1);
            assert(line.len() >= 2 && line[line.len() - 2] == '\r' && line[line.len() - 1] == '\n');
        }
    }
    assert(length.len() == 0 || (length.len() >= 2 && length[length.len() - 2] == '\r'
        && length[length.len() - 1] == '\n'));
    assert(before.len() >= 2 && before[before.len() - 2] == '\r' && before[before.len() - 1]
        == '\n');
    let head = resp.head();
    assert(head == before + crlf);
    assert(head =~= head.take(head.len() - 4) + head_end());
}

/// Every line feed of `s` ends a line that is not empty: a carriage return stands before
/// it, and before that a character that is no line feed.
pub open spec fn ends_full_lines(s: Seq<char>) -> bool {
    forall|j: int|
        0 <= j < s.len() && #[trigger] s[j] == '\n' ==> j >= 2 && s[j - 1] == '\r' && s[j - 2]
            != '\n'
}

/// A line that is not empty and holds no line feed, after lines of that kind, leaves
/// only lines of that kind.
pub proof fn lemma_add_full_line(before: Seq<char>, content: Seq<char>)
    requires
        ends_full_lines(before),
        content.len() > 0,
        lacks(content, '\n'),
    ensures
        ends_full_lines(before + content + "\r\n"@),
{
    reveal_strlit("\r\n");
    let s = before + content + "\r\n"@;
    let a = before.len() as int;
    let c = content.len() as int;
    assert forall|j: int| 0 <= j < s.len() && #[trigger] s[j] == '\n' implies j >= 2 && s[j - 1]
        == '\r' && s[j - 2] != '\n' by {
        if j < a {
            assert(s[j] == before[j]);
            assert(s[j - 1] == before[j - 1] && s[j - 2] == before[j - 2]);
        } else if j < a + c {
            assert(s[j] == content[j - a]);
        } else {
            assert(s[a + c] == '\r' && s[a + c + 1] == '\n');
            assert(s[a + c - 1] == content[c - 1]);
        }
    }
}

/// The lines of headers without line feed, after full lines, leave only full lines.
pub proof fn lemma_header_block_lines(before: Seq<char>, headers: Seq<(Seq<char>, Seq<char>)>)
    requires
        ends_full_lines(before),
        forall|i: int|
            0 <= i < headers.len() ==> lacks((#[trigger] headers[i]).0, '\n') && lacks(
                headers[i].1,
                '\n',
            ),
    ensures
        ends_full_lines(before + header_block(headers)),
    decreases headers.len(),
{
    if headers.len() == 0 {
        assert(before + header_block(headers) =~= before);
    } else {
        reveal_strlit(": ");
        let earlier = headers.drop_last();
        let last = headers.last();
        assert forall|i: int| 0 <= i < earlier.len() implies lacks((#[trigger] earlier[i]).0, '\n')
            && lacks(earlier[i].1, '\n') by {
            assert(earlier[i] == headers[i]);
        }
        lemma_header_block_lines(before, earlier);
        let content = last.0 + ": "@ + last.1;
        assert forall|i: int| 0 <= i < content.len() implies #[trigger] content[i] != '\n' by {
            if i < last.0.len() {
                assert(content[i] == last.0[i]);
            } else if i >= last.0.len() + 2 {
                assert(content[i] == last.1[i - last.0.len() - 2]);
            }
        }
        lemma_add_full_line(before + header_block(earlier), content);
        assert(before + header_block(headers) =~= before + header_block(earlier) + content
            + "\r\n"@);
    }
}

/// The decimal text of a number holds no line feed.
pub proof fn lemma_decimal_lacks_line_feed(n: nat)
    ensures
        lacks(decimal(n), '\n'),
{
    lemma_decimal_digits(n);
    assert forall|i: int| 0 <= i < decimal(n).len() implies #[trigger] decimal(n)[i] != '\n' by {
        assert(0 <= digit_value(decimal(n)[i]));
    }
}

/// Whether neither the status text nor a header of the response holds a line feed.
pub open spec fn has_plain_head(resp: ResponseView) -> bool {
    &&& lacks(resp.status_text, '\n')
    &&& forall|i: int|
        0 <= i < resp.headers.len() ==> lacks((#[trigger] resp.headers[i]).0, '\n') && lacks(
            resp.headers[i].1,
            '\n',
        )
}

/// A response whose status text and headers hold no line feed has no blank line in its
/// head but the one that ends it.
pub proof fn lemma_plain_head_has_one_blank_line(resp: ResponseView)
    requires
        has_plain_head(resp),
    ensures
        has_one_blank_line(resp),
{
    reveal_strlit("HTTP/1.1 ");
    reveal_strlit(" ");
    reveal_strlit(": ");
    reveal_strlit("Content-Length");
    reveal_strlit("\r\n");
    let crlf = "\r\n"@;
    let number = decimal(resp.status_code as nat);
    lemma_decimal_lacks_line_feed(resp.status_code as nat);
    let first = "HTTP/1.1 "@ + number + " "@ + resp.status_text;
    assert forall|i: int| 0 <= i < first.len() implies #[trigger] first[i] != '\n' by {
        if i < 9 {
            assert(first[i] == "HTTP/1.1 "@[i]);
        } else if i < 9 + number.len() {
            assert(first[i] == number[i - 9]);
        } else if i >= 10 + number.len() {
            assert(first[i] == resp.status_text[i - 10 - number.len()]);
        }
    }
    let nothing = Seq::<char>::empty();
    lemma_add_full_line(nothing, first);
    assert(nothing + first + crlf =~= status_line(resp.status_code, resp.status_text));
    let line = status_line(resp.status_code, resp.status_text);
    lemma_header_block_lines(line, resp.headers);
    let listed = line + header_block(resp.headers);
    let length = resp.content_length_line();
    let before = listed + length;
    if resp.has_content_length() {
        assert(before =~= listed);
    } else {
        let size = decimal(resp.body.bytes().len());
        lemma_decimal_lacks_line_feed(resp.body.bytes().len());
        let content = "Content-Length"@ + ": "@ + size;
        assert forall|i: int| 0 <= i < content.len() implies #[trigger] content[i] != '\n' by {
            if i < 14 {
                assert(content[i] == "Content-Length"@[i]);
            } else if i >= 16 {
                assert(content[i] == size[i - 16]);
            }
        }
        lemma_add_full_line(listed, content);
        assert(before =~= listed + content + crlf);
    }
    let head = resp.head();
    assert(head =~= before + crlf);
    lemma_head_ends_with_marker(resp);
    assert(before.len() == head.len() - 2);
    assert forall|j: int| 0 <= j < head.len() - 4 implies marker_len(#[trigger] head.skip(j))
        == 0 by {
        let here = head.skip(j);
        assert(here[0] == head[j] && here[1] == head[j + 1]);
        assert(here[2] == head[j + 2] && here[3] == head[j + 3]);
        assert(head[j + 1] == before[j + 1]);
        if j + 3 < before.len() {
            assert(head[j + 3] == before[j + 3]);
            assert(head[j + 2] == before[j + 2]);
        } else {
            assert(head[j + 3] == '\r');
        }
        assert(head[j] == before[j]);
    }
}

/// A reader finds the body that was written: in the bytes of a response whose head holds
/// no blank-line marker but the one that ends it, what follows the first marker is the
/// body, whatever bytes the body holds. Where no `Content-Length` was set, the number
/// that the written `Content-Length` stands for is the number of those bytes.
pub proof fn lemma_body_is_found(resp: ResponseView)
    requires
        has_one_blank_line(resp),
    ensures
        byte_body_start(resp.wire()) == encode_utf8(resp.head()).len(),
        resp.wire().skip(byte_body_start(resp.wire())) == resp.body.bytes(),
        !resp.has_content_length() ==> resp.content_length_line() == header_line(
            "Content-Length"@,
            decimal(resp.body.bytes().len()),
        ) && decimal_value(decimal(resp.body.bytes().len())) == Some(
            (resp.wire().len() - byte_body_start(resp.wire())) as nat,
        ),
{
    let head = resp.head();
    lemma_head_ends_with_marker(resp);
    let g = head.take(head.len() - 4);
    assert forall|j: int| 0 <= j < g.len() implies marker_len(#[trigger] (g + head_end()).skip(j))
        == 0 by {
        assert((g + head_end()).skip(j) == head.skip(j));
    }
    lemma_marker_in_bytes(g, resp.body.bytes());
    assert(resp.wire().skip(encode_utf8(head).len() as int) =~= resp.body.bytes());
    if !resp.has_content_length() {
        lemma_content_length_is_body_length(resp);
    }
}

/// Serializing a response and reading its length back agree: for a response whose status
/// text and headers hold no line feed and on which no `Content-Length` was set, what
/// follows the first blank-line marker of its bytes is its body, and the number that the
/// written `Content-Length` stands for is the number of those bytes. Nothing is cut off
/// and nothing is added, whether the body is text, JSON or raw bytes.
pub proof fn lemma_length_is_read_back(resp: ResponseView)
    requires
        has_plain_head(resp),
        !resp.has_content_length(),
    ensures
        resp.wire().skip(byte_body_start(resp.wire())) == resp.body.bytes(),
        resp.content_length_line() == header_line(
            "Content-Length"@,
            decimal(resp.body.bytes().len()),
        ),
        decimal_value(decimal(resp.body.bytes().len())) == Some(
            (resp.wire().len() - byte_body_start(resp.wire())) as nat,
        ),
{
    lemma_plain_head_has_one_blank_line(resp);
    lemma_body_is_found(resp);
}

} // verus!
