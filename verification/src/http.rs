//! Request routing and response framing of the wire protocol.

use vstd::prelude::*;
use vstd::string::*;

use crate::decimal::{append_decimal, decimal};
use crate::resources::Page;

verus! {

/// What a request asks for.
#[derive(Clone, Copy, PartialEq, Eq, Structural, Debug)]
pub enum Route {
    /// The hello page, at once.
    Hello,
    /// The hello page, after a pause.
    Sleep,
    /// Anything else.
    NotFound,
}

/// The bytes of a text made of ASCII characters.
pub open spec fn ascii(text: Seq<char>) -> Seq<u8> {
    Seq::new(text.len(), |i: int| text[i] as u8)
}

/// The request line that asks for the hello page.
pub open spec fn hello_line() -> Seq<u8> {
    ascii("GET / HTTP/1.1\r\n"@)
}

/// The request line that asks for the hello page after a pause.
pub open spec fn sleep_line() -> Seq<u8> {
    ascii("GET /sleep HTTP/1.1\r\n"@)
}

/// The response: status line, the length of the body in bytes, an empty
/// line, the body.
pub open spec fn response_text(status_line: Seq<char>, body_len: nat, body: Seq<char>) -> Seq<
    char,
> {
    status_line + "\r\nContent-Length: "@ + decimal(body_len) + "\r\n\r\n"@ + body
}

/// Whether `data` begins with `prefix`.
pub fn starts_with(data: &[u8], prefix: &[u8]) -> (yes: bool)
    ensures
        yes == prefix@.is_prefix_of(data@),
{
    if prefix.len() > data.len() {
        return false;
    }
    let mut i: usize = 0;
    while i < prefix.len()
        invariant
            i <= prefix.len() <= data.len(),
            forall|k: int| 0 <= k < i ==> data@[k] == prefix@[k],
        decreases prefix.len() - i,
    {
        if data[i] != prefix[i] {
            assert(data@.subrange(0, prefix@.len() as int)[i as int] != prefix@[i as int]);
            return false;
        }
        i += 1;
    }
    assert(prefix@ =~= data@.subrange(0, prefix@.len() as int));
    true
}

impl Route {
    /// The route of a request: decided by the literal request line the bytes
    /// begin with, the hello line taking precedence.
    pub open spec fn route_of(request: Seq<u8>) -> Route {
        if hello_line().is_prefix_of(request) {
            Route::Hello
        } else if sleep_line().is_prefix_of(request) {
            Route::Sleep
        } else {
            Route::NotFound
        }
    }

    /// The status line a route is answered with.
    pub open spec fn spec_status_line(self) -> Seq<char> {
        match self {
            Route::Hello => "HTTP/1.1 200 OK"@,
            Route::Sleep => "HTTP/1.1 200 OK"@,
            Route::NotFound => "HTTP/1.1 404 NOT FOUND"@,
        }
    }

    /// The page a route is answered with.
    pub open spec fn spec_page(self) -> Page {
        match self {
            Route::Hello => Page::Hello,
            Route::Sleep => Page::Hello,
            Route::NotFound => Page::NotFound,
        }
    }

    /// The pause, in seconds, before a route is answered.
    pub open spec fn spec_delay_seconds(self) -> u64 {
        match self {
            Route::Sleep => 5,
            _ => 0,
        }
    }

    /// Routes the bytes read from a connection.
    pub fn of(request: &[u8]) -> (route: Route)
        ensures
            route == Route::route_of(request@),
    {
        let hello = "GET / HTTP/1.1\r\n";
        let sleep = "GET /sleep HTTP/1.1\r\n";
        proof {
            reveal_strlit("GET / HTTP/1.1\r\n");
            reveal_strlit("GET /sleep HTTP/1.1\r\n");
            assert(is_ascii(hello));
            assert(is_ascii(sleep));
            is_ascii_spec_bytes(hello);
            is_ascii_spec_bytes(sleep);
            assert(hello.spec_bytes() =~= hello_line());
            assert(sleep.spec_bytes() =~= sleep_line());
        }
        if starts_with(request, hello.as_bytes()) {
            Route::Hello
        } else if starts_with(request, sleep.as_bytes()) {
            Route::Sleep
        } else {
            Route::NotFound
        }
    }

    /// The status line the route is answered with.
    pub fn status_line(&self) -> (line: &'static str)
        ensures
            line@ == self.spec_status_line(),
    {
        match self {
            Route::Hello => "HTTP/1.1 200 OK",
            Route::Sleep => "HTTP/1.1 200 OK",
            Route::NotFound => "HTTP/1.1 404 NOT FOUND",
        }
    }

    /// The page the route is answered with.
    pub fn page(&self) -> (page: Page)
        ensures
            page == self.spec_page(),
    {
        match self {
            Route::Hello => Page::Hello,
            Route::Sleep => Page::Hello,
            Route::NotFound => Page::NotFound,
        }
    }

    /// The pause, in seconds, before the route is answered.
    pub fn delay_seconds(&self) -> (seconds: u64)
        ensures
            seconds == self.spec_delay_seconds(),
    {
        match self {
            Route::Sleep => 5,
            _ => 0,
        }
    }
}

/// Frames `contents` as the body of a response with the given status line.
/// The announced length is that of the body's UTF-8 encoding.
pub fn format_response(status_line: &str, contents: &str) -> (response: String)
    ensures
        response@ == response_text(status_line@, contents.spec_bytes().len(), contents@),
{
    let mut response = status_line.to_owned();
    response.append("\r\nContent-Length: ");
    let body_len: usize = contents.as_bytes().len();
    append_decimal(&mut response, body_len as u64);
    response.append("\r\n\r\n");
    response.append(contents);
    response
}

} // verus!
