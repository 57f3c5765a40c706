//! The response model, its builder and its wire format.

use vstd::prelude::*;
use vstd::string::{StrSliceExecFns, StringExecFns};
use vstd::utf8::encode_utf8;
use crate::decimal::{decimal, decimal_value, lemma_decimal_round_trip, push_decimal};
use crate::server::string_map::{distinct_keys, lemma_upsert, pairs_map, upsert, StringMap};

verus! {

/// `serde_json::Value`, a JSON value. Nothing is known of what is inside one.
#[verifier::external_type_specification]
#[verifier::external_body]
pub struct ExJsonValue(serde_json::Value);

/// `serde_json::Error`, the failure of a conversion to or from JSON. Nothing is known of
/// what is inside one.
#[verifier::external_type_specification]
#[verifier::external_body]
pub struct ExJsonError(serde_json::Error);

/// The compact JSON text of a value, as `serde_json` writes it.
pub uninterp spec fn json_text(value: serde_json::Value) -> Seq<char>;

/// `serde_json::Value`'s `to_string` writes the value as compact JSON text, which
/// depends on nothing but the value.
#[verifier::external_body]
fn json_to_string(value: &serde_json::Value) -> (text: String)
    ensures
        text@ == json_text(*value),
{
    value.to_string()
}

/// `serde_json::Value`'s `clone` returns a value equal to the one it is called on.
pub assume_specification[ <serde_json::Value as Clone>::clone ](
    value: &serde_json::Value,
) -> (copy: serde_json::Value)
    ensures
        copy == *value,
;

/// The payload of a response.
#[derive(Debug, Clone)]
pub enum ResponseBody {
    /// Text, sent as UTF-8.
    Text(String),
    /// A JSON value, sent as its compact text in UTF-8.
    Json(serde_json::Value),
    /// Bytes, sent as they are.
    Raw(Vec<u8>),
}

/// A payload as the contracts see it.
pub enum BodyView {
    Text(Seq<char>),
    /// The compact text of the JSON value.
    Json(Seq<char>),
    Raw(Seq<u8>),
}

impl View for ResponseBody {
    type V = BodyView;

    open spec fn view(&self) -> BodyView {
        match self {
            ResponseBody::Text(text) => BodyView::Text(text@),
            ResponseBody::Json(value) => BodyView::Json(json_text(*value)),
            ResponseBody::Raw(bytes) => BodyView::Raw(bytes@),
        }
    }
}

impl BodyView {
    /// The bytes that are sent for the payload.
    pub open spec fn bytes(self) -> Seq<u8> {
        match self {
            BodyView::Text(text) => encode_utf8(text),
            BodyView::Json(text) => encode_utf8(text),
            BodyView::Raw(bytes) => bytes,
        }
    }
}

/// A response as the contracts see it.
pub struct ResponseView {
    pub status_code: u16,
    pub status_text: Seq<char>,
    /// The headers in the order in which their names were first set.
    pub headers: Seq<(Seq<char>, Seq<char>)>,
    pub body: BodyView,
}

/// The first line of a response.
pub open spec fn status_line(code: u16, text: Seq<char>) -> Seq<char> {
    "HTTP/1.1 "@ + decimal(code as nat) + " "@ + text + "\r\n"@
}

/// The line of one header.
pub open spec fn header_line(name: Seq<char>, value: Seq<char>) -> Seq<char> {
    name + ": "@ + value + "\r\n"@
}

/// The lines of the headers, in order.
pub open spec fn header_block(headers: Seq<(Seq<char>, Seq<char>)>) -> Seq<char>
    decreases headers.len(),
{
    if headers.len() == 0 {
        Seq::empty()
    } else {
        header_block(headers.drop_last()) + header_line(headers.last().0, headers.last().1)
    }
}

impl ResponseView {
    /// Whether a `Content-Length` header was set.
    pub open spec fn has_content_length(self) -> bool {
        pairs_map(self.headers).contains_key("Content-Length"@)
    }

    /// The `Content-Length` line that is added for a response on which none was set.
    pub open spec fn content_length_line(self) -> Seq<char> {
        if self.has_content_length() {
            Seq::empty()
        } else {
            header_line("Content-Length"@, decimal(self.body.bytes().len()))
        }
    }

    /// What is sent before the body: status line, headers, the `Content-Length` line
    /// where it is added, and an empty line.
    pub open spec fn head(self) -> Seq<char> {
        status_line(self.status_code, self.status_text) + header_block(self.headers)
            + self.content_length_line() + "\r\n"@
    }

    /// The response on the wire: the head in UTF-8, then the bytes of the body.
    pub open spec fn wire(self) -> Seq<u8> {
        encode_utf8(self.head()) + self.body.bytes()
    }

    /// This response with `value` written under the header `name`.
    pub open spec fn with_header(self, name: Seq<char>, value: Seq<char>) -> ResponseView {
        ResponseView { headers: upsert(self.headers, name, value), ..self }
    }

    /// This response with another body.
    pub open spec fn with_body(self, body: BodyView) -> ResponseView {
        ResponseView { body, ..self }
    }
}

/// The `Content-Length` that is written for a response on which none was set says how
/// many bytes follow the head: the number that its digits stand for is the number of the
/// bytes of the body, and the wire is the head followed by exactly those bytes. This
/// holds of every kind of body.
pub proof fn lemma_content_length_is_body_length(resp: ResponseView)
    requires
        !resp.has_content_length(),
    ensures
        resp.content_length_line() == header_line(
            "Content-Length"@,
            decimal(resp.body.bytes().len()),
        ),
        decimal_value(decimal(resp.body.bytes().len())) == Some(resp.body.bytes().len()),
        resp.wire().len() == encode_utf8(resp.head()).len() + resp.body.bytes().len(),
        resp.wire().skip(encode_utf8(resp.head()).len() as int) == resp.body.bytes(),
        resp.wire().take(encode_utf8(resp.head()).len() as int) == encode_utf8(resp.head()),
{
    lemma_decimal_round_trip(resp.body.bytes().len());
    let head = encode_utf8(resp.head());
    assert(resp.wire().skip(head.len() as int) =~= resp.body.bytes());
    assert(resp.wire().take(head.len() as int) =~= head);
}

/// For a response with a JSON body on which no `Content-Length` was set, the
/// `Content-Length` that is written is the number of bytes of the JSON text in UTF-8.
pub proof fn lemma_json_content_length(resp: ResponseView, text: Seq<char>)
    requires
        resp.body == BodyView::Json(text),
        !resp.has_content_length(),
    ensures
        resp.content_length_line() == header_line(
            "Content-Length"@,
            decimal(encode_utf8(text).len()),
        ),
        resp.wire() == encode_utf8(resp.head()) + encode_utf8(text),
{
}

/// Setting a header makes it the value under that name and leaves the other headers and
/// the body as they were. So the `Content-Type` of a response is `application/json`
/// exactly when that was the last value set under the name, whatever the body is.
pub proof fn lemma_with_header(resp: ResponseView, name: Seq<char>, value: Seq<char>)
    requires
        distinct_keys(resp.headers),
    ensures
        distinct_keys(resp.with_header(name, value).headers),
        pairs_map(resp.with_header(name, value).headers) == pairs_map(resp.headers).insert(
            name,
            value,
        ),
        resp.with_header(name, value).body == resp.body,
{
    lemma_upsert(resp.headers, name, value);
}

/// A response under construction. It is built by chaining and sent with
/// [`Response::to_bytes`].
#[derive(Debug, Clone)]
pub struct Response {
    status_code: u16,
    status_text: String,
    headers: StringMap,
    body: ResponseBody,
}

impl View for Response {
    type V = ResponseView;

    closed spec fn view(&self) -> ResponseView {
        ResponseView {
            status_code: self.status_code,
            status_text: self.status_text@,
            headers: self.headers.pairs(),
            body: self.body@,
        }
    }
}

impl Response {
    /// A response with the given status, no header and an empty body.
    pub fn new(status_code: u16, status_text: &str) -> (resp: Response)
        ensures
            resp@ == (ResponseView {
                status_code,
                status_text: status_text@,
                headers: Seq::empty(),
                body: BodyView::Raw(Seq::empty()),
            }),
    {
        Response {
            status_code,
            status_text: status_text.to_owned(),
            headers: StringMap::new(),
            body: ResponseBody::Raw(Vec::new()),
        }
    }

    /// The status code.
    pub fn status_code(&self) -> (code: u16)
        ensures
            code == self@.status_code,
    {
        self.status_code
    }

    /// The status text.
    pub fn status_text(&self) -> (text: &String)
        ensures
            text@ == self@.status_text,
    {
        &self.status_text
    }

    /// The headers.
    pub fn headers(&self) -> (headers: &StringMap)
        ensures
            headers.pairs() == self@.headers,
    {
        &self.headers
    }

    /// The body.
    pub fn body(&self) -> (body: &ResponseBody)
        ensures
            body@ == self@.body,
    {
        &self.body
    }

    /// Replaces the status.
    pub fn with_status(self, code: u16, text: &str) -> (resp: Response)
        ensures
            resp@ == (ResponseView { status_code: code, status_text: text@, ..self@ }),
    {
        let mut resp = self;
        resp.status_code = code;
        resp.status_text = text.to_owned();
        resp
    }

    /// Sets a header. A header that was set before keeps its place and gets the new
    /// value.
    pub fn with_header(self, key: &str, value: &str) -> (resp: Response)
        ensures
            resp@ == self@.with_header(key@, value@),
    {
        let mut resp = self;
        resp.headers.insert(key.to_owned(), value.to_owned());
        resp
    }

    /// Makes `text` the body and sets `Content-Type` to `text/plain`.
    pub fn with_text_body(self, text: &str) -> (resp: Response)
        ensures
            resp@ == self@.with_header("Content-Type"@, "text/plain"@).with_body(
                BodyView::Text(text@),
            ),
    {
        let mut resp = self;
        resp.headers.insert("Content-Type".to_owned(), "text/plain".to_owned());
        resp.body = ResponseBody::Text(text.to_owned());
        resp
    }

    /// Makes `html` the body and sets `Content-Type` to `text/html`.
    pub fn with_html_body(self, html: &str) -> (resp: Response)
        ensures
            resp@ == self@.with_header("Content-Type"@, "text/html"@).with_body(
                BodyView::Text(html@),
            ),
    {
        let mut resp = self;
        resp.headers.insert("Content-Type".to_owned(), "text/html".to_owned());
        resp.body = ResponseBody::Text(html.to_owned());
        resp
    }

    /// Makes a JSON value the body and sets `Content-Type` to `application/json`.
    /// `converted` is what converting the data to a JSON value gave; where that failed,
    /// the failure is handed on and no response is made.
    pub fn with_json_body(self, converted: Result<serde_json::Value, serde_json::Error>) -> (r:
        Result<Response, serde_json::Error>)
        ensures
            match converted {
                Ok(value) => r is Ok && r->Ok_0@ == self@.with_header(
                    "Content-Type"@,
                    "application/json"@,
                ).with_body(BodyView::Json(json_text(value))),
                Err(e) => r is Err && r->Err_0 == e,
            },
    {
        match converted {
            Ok(value) => {
                let mut resp = self;
                resp.headers.insert("Content-Type".to_owned(), "application/json".to_owned());
                resp.body = ResponseBody::Json(value);
                Ok(resp)
            },
            Err(e) => Err(e),
        }
    }

    /// Makes `body` the body, as it is, and sets `Content-Type` to `content_type`.
    pub fn with_raw_body(self, body: Vec<u8>, content_type: &str) -> (resp: Response)
        ensures
            resp@ == self@.with_header("Content-Type"@, content_type@).with_body(
                BodyView::Raw(body@),
            ),
    {
        let mut resp = self;
        resp.headers.insert("Content-Type".to_owned(), content_type.to_owned());
        resp.body = ResponseBody::Raw(body);
        resp
    }

    /// The bytes that are sent for the body.
    pub fn body_bytes(&self) -> (bytes: Vec<u8>)
        ensures
            bytes@ == self@.body.bytes(),
    {
        match &self.body {
            ResponseBody::Text(text) => text.as_str().as_bytes_vec(),
            ResponseBody::Json(value) => json_to_string(value).as_str().as_bytes_vec(),
            ResponseBody::Raw(bytes) => bytes.clone(),
        }
    }

    /// The response on the wire.
    pub fn to_bytes(&self) -> (out: Vec<u8>)
        ensures
            out@ == self@.wire(),
    {
        let mut body = self.body_bytes();
        let mut head = String::from_str("HTTP/1.1 ");
        push_decimal(&mut head, self.status_code as usize);
        head.append(" ");
        head.append(self.status_text.as_str());
        head.append("\r\n");
        let ghost line = head@;
        assert(line =~= status_line(self@.status_code, self@.status_text));
        let n = self.headers.len();
        let mut i: usize = 0;
        assert(self.headers.pairs().take(0) =~= Seq::empty());
        while i < n
            invariant
                i <= n,
                n == self.headers.pairs().len(),
                head@ == line + header_block(self.headers.pairs().take(i as int)),
            decreases n - i,
        {
            let (name, value) = self.headers.entry(i);
            let ghost before = head@;
            head.append(name.as_str());
            head.append(": ");
            head.append(value.as_str());
            head.append("\r\n");
            proof {
                let now = self.headers.pairs().take(i + 1);
                assert(now.drop_last() =~= self.headers.pairs().take(i as int));
                assert(now.last() == (name@, value@));
                assert(head@ =~= before + header_line(name@, value@));
                assert(head@ =~= line + header_block(now));
            }
            i += 1;
        }
        assert(self.headers.pairs().take(n as int) =~= self.headers.pairs());
        let ghost listed = head@;
        if !self.headers.contains_key("Content-Length") {
            head.append("Content-Length");
            head.append(": ");
            push_decimal(&mut head, body.len());
            head.append("\r\n");
            assert(head@ =~= listed + header_line(
                "Content-Length"@,
                decimal(self@.body.bytes().len()),
            ));
        }
        assert(head@ =~= listed + self@.content_length_line());
        head.append("\r\n");
        assert(head@ =~= self@.head());
        let mut out = head.as_str().as_bytes_vec();
        out.append(&mut body);
        out
    }
}

} // verus!
