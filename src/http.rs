//! Routing of the minimal HTTP exchange served by the pool: the request's leading
//! bytes pick a status line and a resource; the response is the status line
//! followed by the resource's contents.
use vstd::prelude::*;

verus! {

/// Request line asking for the root page.
pub const ROOT_REQUEST: &'static str = "GET / HTTP/1.1\r\n";

/// Request line asking for the slow page.
pub const SLEEP_REQUEST: &'static str = "GET /sleep HTTP/1.1\r\n";

/// Status line of a successful response.
pub const STATUS_OK: &'static str = "HTTP/1.1 200 OK\r\n\r\n";

/// Status line of a response for an unknown request.
pub const STATUS_NOT_FOUND: &'static str = "HTTP/1.1 404 NOT FOUND\r\n\r\n";

/// What a request asks for.
#[derive(Clone, Copy, Debug, PartialEq, Eq, Structural)]
pub enum Route {
    /// The root page.
    Hello,
    /// The root page, served after a pause that simulates slow work.
    SleepThenHello,
    /// Anything else.
    NotFound,
}

/// The bytes of an ASCII text, one per character.
pub open spec fn ascii_bytes(s: Seq<char>) -> Seq<u8> {
    s.map_values(|c: char| c as u8)
}

/// `prefix` is a prefix of `bytes`.
pub open spec fn has_prefix(bytes: Seq<u8>, prefix: Seq<u8>) -> bool {
    prefix.len() <= bytes.len() && bytes.subrange(0, prefix.len() as int) == prefix
}

pub open spec fn route_of(request: Seq<u8>) -> Route {
    if has_prefix(request, ascii_bytes(ROOT_REQUEST@)) {
        Route::Hello
    } else if has_prefix(request, ascii_bytes(SLEEP_REQUEST@)) {
        Route::SleepThenHello
    } else {
        Route::NotFound
    }
}

/// Whether `bytes` starts with the characters of the ASCII text `prefix`.
pub fn starts_with_text(bytes: &[u8], prefix: &str) -> (r: bool)
    ensures
        r == has_prefix(bytes@, ascii_bytes(prefix@)),
{
    let n = prefix.unicode_len();
    if n > bytes.len() {
        return false;
    }
    let mut i: usize = 0;
    while i < n
        invariant
            n == prefix@.len(),
            n <= bytes@.len(),
            i <= n,
            forall|k: int| 0 <= k < i ==> bytes@[k] == prefix@[k] as u8,
        decreases n - i,
    {
        if bytes[i] != prefix.get_char(i) as u8 {
            assert(bytes@.subrange(0, n as int)[i as int] != ascii_bytes(prefix@)[i as int]);
            return false;
        }
        i = i + 1;
    }
    assert(bytes@.subrange(0, n as int) =~= ascii_bytes(prefix@));
    true
}

/// The route that a request selects by its leading bytes.
pub fn route(request: &[u8]) -> (r: Route)
    ensures
        r == route_of(request@),
{
    if starts_with_text(request, ROOT_REQUEST) {
        Route::Hello
    } else if starts_with_text(request, SLEEP_REQUEST) {
        Route::SleepThenHello
    } else {
        Route::NotFound
    }
}

impl Route {
    /// The status line that answers this route.
    pub fn status_line(&self) -> (r: &'static str)
        ensures
            r@ == (if *self is NotFound {
                STATUS_NOT_FOUND@
            } else {
                STATUS_OK@
            }),
    {
        match self {
            Route::NotFound => STATUS_NOT_FOUND,
            _ => STATUS_OK,
        }
    }

    /// The name of the resource whose contents follow the status line.
    pub fn resource(&self) -> (r: &'static str)
        ensures
            r@ == (if *self is NotFound {
                "404.html"@
            } else {
                "hello.html"@
            }),
    {
        match self {
            Route::NotFound => "404.html",
            _ => "hello.html",
        }
    }

    /// Whether serving this route pauses first.
    pub fn pauses(&self) -> (r: bool)
        ensures
            r == (*self is SleepThenHello),
    {
        matches!(self, Route::SleepThenHello)
    }
}

/// The response text: the status line immediately followed by the contents.
pub fn response(status_line: &str, contents: &str) -> (r: String)
    ensures
        r@ == status_line@ + contents@,
{
    let mut r = String::from_str(status_line);
    r.append(contents);
    r
}

} // verus!
