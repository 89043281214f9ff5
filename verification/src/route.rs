//! Request-line dispatch for the pool's network-facing client: decide,
//! from the raw bytes of a request buffer, which of the known request
//! lines it opens with, and which status line and file belong to it.

use vstd::prelude::*;

verus! {

/// Which of the known request lines a request buffer opens with.
///
/// `Sleep` is served exactly like `Root` but only after the client pauses
/// its worker, simulating a slow request.
#[derive(Clone, Copy, PartialEq, Eq, Structural, Debug)]
pub enum Route {
    Root,
    Sleep,
    NotFound,
}

/// The bytes of `GET / HTTP/1.1\r\n`, the request line of the root page.
pub open spec fn root_line() -> Seq<u8> {
    seq![71u8, 69u8, 84u8, 32u8, 47u8, 32u8, 72u8, 84u8, 84u8, 80u8, 47u8, 49u8, 46u8, 49u8, 13u8, 10u8]
}

/// The bytes of `GET /sleep HTTP 1.1\r\n`, the request line of the slow page.
pub open spec fn sleep_line() -> Seq<u8> {
    seq![71u8, 69u8, 84u8, 32u8, 47u8, 115u8, 108u8, 101u8, 101u8, 112u8, 32u8, 72u8, 84u8, 84u8, 80u8, 32u8, 49u8, 46u8, 49u8, 13u8, 10u8]
}

/// `p` is a prefix of `d`.
pub open spec fn is_prefix_of(p: Seq<u8>, d: Seq<u8>) -> bool {
    p.len() <= d.len() && forall|i: int| 0 <= i < p.len() ==> d[i] == p[i]
}

/// The route a buffer resolves to: the root line wins first, then the
/// sleep line, and any other buffer is not found.  (The two lines differ
/// at their fifth byte, so at most one can match.)
pub open spec fn route_of(d: Seq<u8>) -> Route {
    if is_prefix_of(root_line(), d) {
        Route::Root
    } else if is_prefix_of(sleep_line(), d) {
        Route::Sleep
    } else {
        Route::NotFound
    }
}

/// The root request line as bytes, for matching against a request buffer.
pub fn root_line_bytes() -> (v: Vec<u8>)
    ensures
        v@ == root_line(),
{
    let mut v: Vec<u8> = Vec::new();
    v.push(71u8);
    v.push(69u8);
    v.push(84u8);
    v.push(32u8);
    v.push(47u8);
    v.push(32u8);
    v.push(72u8);
    v.push(84u8);
    v.push(84u8);
    v.push(80u8);
    v.push(47u8);
    v.push(49u8);
    v.push(46u8);
    v.push(49u8);
    v.push(13u8);
    v.push(10u8);
    proof {
        assert(v@ =~= root_line());
    }
    v
}

/// The slow request line as bytes, for matching against a request buffer.
pub fn sleep_line_bytes() -> (v: Vec<u8>)
    ensures
        v@ == sleep_line(),
{
    let mut v: Vec<u8> = Vec::new();
    v.push(71u8);
    v.push(69u8);
    v.push(84u8);
    v.push(32u8);
    v.push(47u8);
    v.push(115u8);
    v.push(108u8);
    v.push(101u8);
    v.push(101u8);
    v.push(112u8);
    v.push(32u8);
    v.push(72u8);
    v.push(84u8);
    v.push(84u8);
    v.push(80u8);
    v.push(32u8);
    v.push(49u8);
    v.push(46u8);
    v.push(49u8);
    v.push(13u8);
    v.push(10u8);
    proof {
        assert(v@ =~= sleep_line());
    }
    v
}

/// Whether `data` starts with `prefix`, byte for byte.
pub fn starts_with_bytes(data: &[u8], prefix: &[u8]) -> (r: bool)
    ensures
        r == is_prefix_of(prefix@, data@),
{
    if prefix.len() > data.len() {
        return false;
    }
    let mut i: usize = 0;
    while i < prefix.len()
        invariant
            i <= prefix.len(),
            prefix@.len() <= data@.len(),
            forall|k: int| 0 <= k < i ==> data@[k] == prefix@[k],
        decreases prefix.len() - i,
    {
        if data[i] != prefix[i] {
            return false;
        }
        i = i + 1;
    }
    true
}

/// Resolves a request buffer to its route by literal prefix match against
/// the known request lines, the root line first.
pub fn route(buffer: &[u8]) -> (r: Route)
    ensures
        r == route_of(buffer@),
{
    let root = root_line_bytes();
    if starts_with_bytes(buffer, root.as_slice()) {
        return Route::Root;
    }
    let sleep = sleep_line_bytes();
    if starts_with_bytes(buffer, sleep.as_slice()) {
        return Route::Sleep;
    }
    Route::NotFound
}

/// The status line the client answers a route with.
pub fn status_line(r: Route) -> (s: &'static str)
    ensures
        r != Route::NotFound ==> s@ == "HTTP/1.1 200 OK"@,
        r == Route::NotFound ==> s@ == "HTTP/1.1 404 NOT FOUND"@,
{
    match r {
        Route::Root => "HTTP/1.1 200 OK",
        Route::Sleep => "HTTP/1.1 200 OK",
        Route::NotFound => "HTTP/1.1 404 NOT FOUND",
    }
}

/// The file the client serves for a route.
pub fn file_name(r: Route) -> (s: &'static str)
    ensures
        r != Route::NotFound ==> s@ == "index.html"@,
        r == Route::NotFound ==> s@ == "404.html"@,
{
    match r {
        Route::Root => "index.html",
        Route::Sleep => "index.html",
        Route::NotFound => "404.html",
    }
}

} // verus!
