//! What the pool's jobs decide when the pool serves a web page: which page
//! answers a request, and what bytes make up the answer.  Reading the request
//! and writing the answer are the caller's.

use vstd::prelude::*;
use vstd::string::StringSliceAdditionalSpecFns;

verus! {

/// The outcome that an answer's first line reports.
#[derive(Clone, Copy, Debug, PartialEq, Eq, Structural)]
pub enum Status {
    Found,
    NotFound,
}

/// The pages that can be sent.
#[derive(Clone, Copy, Debug, PartialEq, Eq, Structural)]
pub enum Page {
    Hello,
    NotFound,
}

/// How a request is answered.
#[derive(Clone, Copy, Debug, PartialEq, Eq, Structural)]
pub struct Route {
    /// What the answer's first line reports.
    pub status: Status,
    /// The page whose contents follow the first line.
    pub page: Page,
    /// For how many seconds the answer is held back.
    pub delay_secs: u64,
}

/// The first line of a request for the front page.
pub open spec fn front_page_request() -> Seq<u8> {
    "GET / HTTP/1.1\r\n".spec_bytes()
}

/// The first line of a request for the slow page.
pub open spec fn slow_page_request() -> Seq<u8> {
    "GET /sleep HTTP/1.1\r\n".spec_bytes()
}

/// How the request `request` is answered: the front page at once, the slow
/// page with the same contents after five seconds, and anything else with the
/// page for what is not there.
pub open spec fn route_of(request: Seq<u8>) -> Route {
    if front_page_request().is_prefix_of(request) {
        Route { status: Status::Found, page: Page::Hello, delay_secs: 0 }
    } else if slow_page_request().is_prefix_of(request) {
        Route { status: Status::Found, page: Page::Hello, delay_secs: 5 }
    } else {
        Route { status: Status::NotFound, page: Page::NotFound, delay_secs: 0 }
    }
}

/// The first line of an answer with status `status`, with the empty line that
/// ends the answer's head.
pub open spec fn status_line_of(status: Status) -> Seq<u8> {
    match status {
        Status::Found => "HTTP/1.1 200 OK\r\n\r\n".spec_bytes(),
        Status::NotFound => "HTTP/1.1 404 NOT FOUND\r\n\r\n".spec_bytes(),
    }
}

/// Whether `bytes` begins with `prefix`.
pub fn starts_with(bytes: &[u8], prefix: &[u8]) -> (found: bool)
    ensures
        found == prefix@.is_prefix_of(bytes@),
{
    if prefix.len() > bytes.len() {
        return false;
    }
    let mut index: usize = 0;
    while index < prefix.len()
        invariant
            index <= prefix@.len() <= bytes@.len(),
            forall|i: int| 0 <= i < index ==> prefix@[i] == bytes@[i],
        decreases prefix.len() - index,
    {
        if prefix[index] != bytes[index] {
            assert(bytes@.subrange(0, prefix@.len() as int)[index as int] != prefix@[index as int]);
            return false;
        }
        index = index + 1;
    }
    assert(bytes@.subrange(0, prefix@.len() as int) =~= prefix@);
    true
}

/// Decides how the request whose bytes are `request` is answered.
pub fn route(request: &[u8]) -> (route: Route)
    ensures
        route == route_of(request@),
{
    if starts_with(request, "GET / HTTP/1.1\r\n".as_bytes()) {
        Route { status: Status::Found, page: Page::Hello, delay_secs: 0 }
    } else if starts_with(request, "GET /sleep HTTP/1.1\r\n".as_bytes()) {
        Route { status: Status::Found, page: Page::Hello, delay_secs: 5 }
    } else {
        Route { status: Status::NotFound, page: Page::NotFound, delay_secs: 0 }
    }
}

impl Status {
    /// The first line of an answer with this status, with the empty line
    /// that ends the answer's head.
    pub fn line(self) -> (line: &'static str)
        ensures
            line.spec_bytes() == status_line_of(self),
    {
        match self {
            Status::Found => "HTTP/1.1 200 OK\r\n\r\n",
            Status::NotFound => "HTTP/1.1 404 NOT FOUND\r\n\r\n",
        }
    }
}

impl Page {
    /// The name of the file that holds the page.
    pub fn file_name(self) -> (name: &'static str)
        ensures
            name@ == (match self {
                Page::Hello => "hello.html"@,
                Page::NotFound => "404.html"@,
            }),
    {
        match self {
            Page::Hello => "hello.html",
            Page::NotFound => "404.html",
        }
    }
}

/// The bytes of the answer: the status line of `status`, then `contents` as
/// they are.
pub fn response(status: Status, contents: &[u8]) -> (bytes: Vec<u8>)
    ensures
        bytes@ == status_line_of(status) + contents@,
{
    let line = status.line().as_bytes();
    let mut bytes: Vec<u8> = Vec::new();
    let mut index: usize = 0;
    while index < line.len()
        invariant
            index <= line@.len(),
            bytes@ == line@.subrange(0, index as int),
        decreases line.len() - index,
    {
        bytes.push(line[index]);
        assert(line@.subrange(0, index as int).push(line@[index as int]) =~= line@.subrange(
            0,
            index + 1,
        ));
        index = index + 1;
    }
    assert(line@.subrange(0, index as int) =~= line@);
    let mut index: usize = 0;
    while index < contents.len()
        invariant
            index <= contents@.len(),
            bytes@ == line@ + contents@.subrange(0, index as int),
        decreases contents.len() - index,
    {
        bytes.push(contents[index]);
        assert((line@ + contents@.subrange(0, index as int)).push(contents@[index as int]) =~= line@
            + contents@.subrange(0, index + 1));
        index = index + 1;
    }
    assert(contents@.subrange(0, index as int) =~= contents@);
    bytes
}

} // verus!
