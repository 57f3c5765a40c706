//! The route that serves files from a directory.

use vstd::prelude::*;
use vstd::slice::slice_subrange;
use crate::server::methods::HttpMethod;
use crate::server::response::{BodyView, Response, ResponseView};
use crate::text::{chars_of, ends_with, has_prefix, has_suffix, starts_with, string_of};

verus! {

/// Whether `path` belongs to the static files: it begins with `/css/`, `/js/` or
/// `/images/`.
pub open spec fn is_static_path(path: Seq<char>) -> bool {
    has_prefix(path, "/css/"@) || has_prefix(path, "/js/"@) || has_prefix(path, "/images/"@)
}

/// The content type of a file, by the end of its name.
pub open spec fn content_type_of(path: Seq<char>) -> Seq<char> {
    if has_suffix(path, ".css"@) {
        "text/css"@
    } else if has_suffix(path, ".js"@) {
        "application/javascript"@
    } else if has_suffix(path, ".png"@) {
        "image/png"@
    } else if has_suffix(path, ".jpg"@) || has_suffix(path, ".jpeg"@) {
        "image/jpeg"@
    } else if has_suffix(path, ".svg"@) {
        "image/svg+xml"@
    } else {
        "application/octet-stream"@
    }
}

/// The number of slashes that `path` begins with.
pub open spec fn leading_slashes(path: Seq<char>) -> int
    decreases path.len(),
{
    if path.len() == 0 || path[0] != '/' {
        0
    } else {
        1 + leading_slashes(path.skip(1))
    }
}

/// The path of a file below the base directory: the request path without the slashes
/// it begins with.
pub open spec fn relative_path(path: Seq<char>) -> Seq<char> {
    path.skip(leading_slashes(path))
}

/// `n` slashes lead `path`, and no slash follows them.
proof fn lemma_leading_slashes(path: Seq<char>, n: int)
    requires
        0 <= n <= path.len(),
        forall|j: int| 0 <= j < n ==> path[j] == '/',
        n < path.len() ==> path[n] != '/',
    ensures
        leading_slashes(path) == n,
    decreases path.len(),
{
    if n > 0 {
        let t = path.skip(1);
        assert(path[0] == '/');
        assert forall|j: int| 0 <= j < n - 1 implies t[j] == '/' by {
            assert(t[j] == path[j + 1]);
        }
        if n - 1 < t.len() {
            assert(t[n - 1] == path[n]);
        }
        lemma_leading_slashes(t, n - 1);
    }
}

/// What came of looking for a file on disk.
#[derive(Debug)]
pub enum FileLookup {
    /// There is no file of that name.
    Missing,
    /// The file is there and could not be read.
    Unreadable,
    /// The bytes of the file.
    Content(Vec<u8>),
}

/// The response to a request for a file with the request path `path`.
pub open spec fn file_response(path: Seq<char>, file: FileLookup) -> ResponseView {
    match file {
        FileLookup::Missing => ResponseView {
            status_code: 404,
            status_text: "Not Found"@,
            headers: Seq::empty(),
            body: BodyView::Raw(Seq::empty()),
        },
        FileLookup::Unreadable => ResponseView {
            status_code: 500,
            status_text: "Internal Server Error"@,
            headers: Seq::empty(),
            body: BodyView::Raw(Seq::empty()),
        },
        FileLookup::Content(bytes) => ResponseView {
            status_code: 200,
            status_text: "OK"@,
            headers: seq![("Content-Type"@, content_type_of(relative_path(path)))],
            body: BodyView::Raw(bytes@),
        },
    }
}

/// The route that serves the files below one directory.
#[derive(Debug)]
pub struct StaticFiles {
    base_path: String,
}

impl StaticFiles {
    /// The directory below which the files are looked for.
    pub closed spec fn base(&self) -> Seq<char> {
        self.base_path@
    }

    /// A route that serves the files below `base_path`.
    pub fn new(base_path: String) -> (route: StaticFiles)
        ensures
            route.base() == base_path@,
    {
        StaticFiles { base_path }
    }

    /// The directory below which the files are looked for.
    pub fn base_path(&self) -> (base: &String)
        ensures
            base@ == self.base(),
    {
        &self.base_path
    }

    /// The content type of a file, by the end of its name.
    pub fn get_content_type(&self, path: &str) -> (content_type: &'static str)
        ensures
            content_type@ == content_type_of(path@),
    {
        let chars = chars_of(path);
        let p = chars.as_slice();
        if ends_with(p, chars_of(".css").as_slice()) {
            "text/css"
        } else if ends_with(p, chars_of(".js").as_slice()) {
            "application/javascript"
        } else if ends_with(p, chars_of(".png").as_slice()) {
            "image/png"
        } else if ends_with(p, chars_of(".jpg").as_slice()) || ends_with(
            p,
            chars_of(".jpeg").as_slice(),
        ) {
            "image/jpeg"
        } else if ends_with(p, chars_of(".svg").as_slice()) {
            "image/svg+xml"
        } else {
            "application/octet-stream"
        }
    }

    /// Whether the route claims `path`.
    pub fn path_matches(&self, path: &str) -> (b: bool)
        ensures
            b == is_static_path(path@),
    {
        let chars = chars_of(path);
        let p = chars.as_slice();
        starts_with(p, chars_of("/css/").as_slice()) || starts_with(
            p,
            chars_of("/js/").as_slice(),
        ) || starts_with(p, chars_of("/images/").as_slice())
    }

    /// Whether the route claims `method`: it answers `GET` only.
    pub fn method_matches(&self, method: &HttpMethod) -> (b: bool)
        ensures
            b == (*method == HttpMethod::GET),
    {
        *method == HttpMethod::GET
    }

    /// The path, below the base directory, of the file that a request for `path` asks
    /// for.
    pub fn file_name(&self, path: &str) -> (name: String)
        ensures
            name@ == relative_path(path@),
    {
        let chars = chars_of(path);
        let p = chars.as_slice();
        let mut n: usize = 0;
        while n < p.len() && p[n] == '/'
            invariant
                n <= p.len(),
                forall|j: int| 0 <= j < n ==> p@[j] == '/',
            decreases p.len() - n,
        {
            n += 1;
        }
        proof {
            lemma_leading_slashes(p@, n as int);
        }
        let rest = slice_subrange(p, n, p.len());
        assert(rest@ =~= p@.skip(n as int));
        string_of(rest)
    }

    /// The response to a request for `path`, given what came of looking for the file:
    /// 404 where there is none, 500 where it cannot be read, else 200 with the bytes of
    /// the file and its content type.
    pub fn respond(&self, path: &str, file: FileLookup) -> (resp: Response)
        ensures
            resp@ == file_response(path@, file),
    {
        match file {
            FileLookup::Missing => Response::new(404, "Not Found"),
            FileLookup::Unreadable => Response::new(500, "Internal Server Error"),
            FileLookup::Content(bytes) => {
                let name = self.file_name(path);
                let content_type = self.get_content_type(name.as_str());
                let resp = Response::new(200, "OK").with_raw_body(bytes, content_type);
                assert(resp@.headers =~= seq![("Content-Type"@, content_type_of(relative_path(path@)))]);
                resp
            },
        }
    }
}

} // verus!
