//! What a connection handler computes between reading a request and writing
//! the answer: which page the request asks for, and the text of the response.

use vstd::prelude::*;
use vstd::string::{StringExecFns, StringSliceAdditionalSpecFns};

verus! {

/// The pages that the server knows.
#[derive(Clone, Copy, Debug, PartialEq, Eq, Structural)]
pub enum Page {
    /// The page served for the root path.
    Hello,
    /// The page served for the path `/other`.
    Other,
    /// The page served for every other request.
    NotFound,
}

/// The request line that asks for the root path, as bytes.
pub open spec fn root_request() -> Seq<u8> {
    "GET / HTTP/1.1\r\n".spec_bytes()
}

/// The request line that asks for the path `/other`, as bytes.
pub open spec fn other_request() -> Seq<u8> {
    "GET /other HTTP/1.1\r\n".spec_bytes()
}

/// The page that a request asks for: the one whose request line the request
/// begins with, and the page for unknown requests where it begins with none.
pub open spec fn page_for(request: Seq<u8>) -> Page {
    if root_request().is_prefix_of(request) {
        Page::Hello
    } else if other_request().is_prefix_of(request) {
        Page::Other
    } else {
        Page::NotFound
    }
}

impl Page {
    /// The status line of the response for this page, with the empty line
    /// that ends the header.
    pub open spec fn status_line_text(self) -> Seq<char> {
        match self {
            Page::Hello | Page::Other => "HTTP/1.1 200 OK\r\n\r\n"@,
            Page::NotFound => "HTTP/1.1 404 NOT FOUND\r\n\r\n"@,
        }
    }

    /// The name of the file that holds this page.
    pub open spec fn filename_text(self) -> Seq<char> {
        match self {
            Page::Hello => "hello.html"@,
            Page::Other => "other.html"@,
            Page::NotFound => "error.html"@,
        }
    }

    /// The status line of the response for this page, with the empty line
    /// that ends the header.
    pub fn status_line(self) -> (line: &'static str)
        ensures
            line@ == self.status_line_text(),
    {
        match self {
            Page::Hello | Page::Other => "HTTP/1.1 200 OK\r\n\r\n",
            Page::NotFound => "HTTP/1.1 404 NOT FOUND\r\n\r\n",
        }
    }

    /// The name of the file that holds this page.
    pub fn filename(self) -> (name: &'static str)
        ensures
            name@ == self.filename_text(),
    {
        match self {
            Page::Hello => "hello.html",
            Page::Other => "other.html",
            Page::NotFound => "error.html",
        }
    }
}

/// Whether `data` begins with `prefix`.
pub fn starts_with(data: &[u8], prefix: &[u8]) -> (found: bool)
    ensures
        found == prefix@.is_prefix_of(data@),
{
    if prefix.len() > data.len() {
        return false;
    }
    let mut i: usize = 0;
    while i < prefix.len()
        invariant
            i <= prefix@.len() <= data@.len(),
            forall|k: int| 0 <= k < i ==> prefix@[k] == data@[k],
        decreases prefix@.len() - i,
    {
        if prefix[i] != data[i] {
            return false;
        }
        i += 1;
    }
    true
}

/// Decides which page the bytes of a request ask for.
pub fn route(request: &[u8]) -> (page: Page)
    ensures
        page == page_for(request@),
{
    if starts_with(request, "GET / HTTP/1.1\r\n".as_bytes()) {
        Page::Hello
    } else if starts_with(request, "GET /other HTTP/1.1\r\n".as_bytes()) {
        Page::Other
    } else {
        Page::NotFound
    }
}

/// The response for `page`: its status line, then the contents of its file.
pub fn response(page: Page, contents: &str) -> (text: String)
    ensures
        text@ == page.status_line_text() + contents@,
{
    String::from_str(page.status_line()).concat(contents)
}

} // verus!
