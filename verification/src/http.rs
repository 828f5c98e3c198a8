//! The local control endpoint on 127.0.0.1:2290: request-line parsing,
//! header scanning, routing, and the exact response text.
use vstd::prelude::*;
use crate::numfmt::{dec, parse_usize, u64_to_dec};
use crate::text::{
    append_chars, chars_starts_with, is_prefix, str_equal, is_white_space, lemma_trim_start_skip, str_chars,
    string_from_chars, to_lowercase, trim_start_ws, trim_whitespace, trim_ws, unicode_lowercase,
    char_is_white_space,
};
use crate::numfmt::parsed_int;
use vstd::utf8::encode_utf8;

verus! {

broadcast use vstd::string::group_string_axioms;

// ---------------------------------------------------------------------------
// Request line
// ---------------------------------------------------------------------------

/// Number of leading characters that are not white space.
pub open spec fn word_len(s: Seq<char>) -> nat
    decreases s.len(),
{
    if s.len() > 0 && !is_white_space(s[0]) {
        1 + word_len(s.drop_first())
    } else {
        0
    }
}

/// The first white-space separated word of `s` and what follows it.
pub open spec fn first_word(s: Seq<char>) -> Option<(Seq<char>, Seq<char>)> {
    let t = trim_start_ws(s);
    if t.len() == 0 {
        None
    } else {
        Some((t.take(word_len(t) as int), t.skip(word_len(t) as int)))
    }
}

/// Method and path: the first two words of the request line (std
/// `split_whitespace`), if it has two.
pub open spec fn request_target(line: Seq<char>) -> Option<(Seq<char>, Seq<char>)> {
    match first_word(line) {
        None => None,
        Some((method, rest)) => match first_word(rest) {
            None => None,
            Some((path, _)) => Some((method, path)),
        },
    }
}

proof fn lemma_word_len(s: Seq<char>, i: int, k: int)
    requires
        0 <= i <= k <= s.len(),
        forall|j: int| i <= j < k ==> !is_white_space(#[trigger] s[j]),
        k == s.len() || is_white_space(s[k]),
    ensures
        word_len(s.skip(i)) == k - i,
    decreases k - i,
{
    let t = s.skip(i);
    if i < k {
        assert(t[0] == s[i]);
        lemma_word_len(s, i + 1, k);
        assert(t.drop_first() =~= s.skip(i + 1));
    } else if k < s.len() {
        assert(t[0] == s[k]);
    }
}

/// The word of `v` starting at `from`, and the index just after it.
fn word_at(v: &Vec<char>, from: usize) -> (r: (usize, usize))
    requires
        from <= v@.len(),
    ensures
        ({
            let (start, end) = r;
            &&& from <= start <= end <= v@.len()
            &&& trim_start_ws(v@.skip(from as int)) == v@.skip(start as int)
            &&& word_len(v@.skip(start as int)) == end - start
        }),
{
    let mut i = from;
    while i < v.len() && char_is_white_space(v[i])
        invariant
            from <= i <= v@.len(),
            forall|j: int| from <= j < i ==> is_white_space(#[trigger] v@[j]),
        decreases v@.len() - i,
    {
        i += 1;
    }
    let mut k = i;
    while k < v.len() && !char_is_white_space(v[k])
        invariant
            i <= k <= v@.len(),
            forall|j: int| i <= j < k ==> !is_white_space(#[trigger] v@[j]),
        decreases v@.len() - k,
    {
        k += 1;
    }
    proof {
        let t = v@.skip(from as int);
        assert forall|j: int| 0 <= j < i - from implies is_white_space(#[trigger] t[j]) by {
            assert(t[j] == v@[j + from]);
        }
        if i < v@.len() {
            assert(t[i - from] == v@[i as int]);
        }
        lemma_trim_start_skip(t, i - from);
        assert(t.skip(i - from) =~= v@.skip(i as int));
        lemma_word_len(v@, i as int, k as int);
    }
    (i, k)
}

fn chars_range(v: &Vec<char>, a: usize, b: usize) -> (s: String)
    requires
        a <= b <= v@.len(),
    ensures
        s@ == v@.subrange(a as int, b as int),
{
    let mut out: Vec<char> = Vec::new();
    let mut i = a;
    while i < b
        invariant
            a <= i <= b,
            b <= v@.len(),
            out@ == v@.subrange(a as int, i as int),
        decreases b - i,
    {
        out.push(v[i]);
        assert(v@.subrange(a as int, i + 1) == v@.subrange(a as int, i as int).push(v@[i as int]));
        i += 1;
    }
    string_from_chars(out.as_slice())
}

pub open spec fn opt_pair(o: Option<(String, String)>) -> Option<(Seq<char>, Seq<char>)> {
    match o {
        Some((a, b)) => Some((a@, b@)),
        None => None,
    }
}

/// Method and path of a request line; `None` is answered `400 Bad Request`.
pub fn parse_request_line(line: &str) -> (r: Option<(String, String)>)
    ensures
        opt_pair(r) == request_target(line@),
{
    let v = str_chars(line);
    let (s1, e1) = word_at(&v, 0);
    proof {
        assert(v@.skip(0) =~= v@);
    }
    if s1 == v.len() {
        return None;
    }
    let (s2, e2) = word_at(&v, e1);
    proof {
        let t1 = v@.skip(s1 as int);
        assert(t1.take((e1 - s1) as int) =~= v@.subrange(s1 as int, e1 as int));
        assert(t1.skip((e1 - s1) as int) =~= v@.skip(e1 as int));
        let t2 = v@.skip(s2 as int);
        if s2 < v@.len() {
            assert(t2.take((e2 - s2) as int) =~= v@.subrange(s2 as int, e2 as int));
        }
    }
    if s2 == v.len() {
        return None;
    }
    let method = chars_range(&v, s1, e1);
    let path = chars_range(&v, s2, e2);
    Some((method, path))
}

// ---------------------------------------------------------------------------
// Headers
// ---------------------------------------------------------------------------

/// The header lines end at the first blank line (or the end of input,
/// read as an empty line).
pub open spec fn ends_headers(line: Seq<char>) -> bool {
    trim_ws(line).len() == 0
}

/// The body length after one header line: a `Content-Length` header (any
/// case) sets it, 0 when its value is not a number; other lines keep it.
pub open spec fn content_length_after(current: usize, line: Seq<char>) -> usize {
    let lower = unicode_lowercase(line);
    let prefix = "content-length:"@;
    if is_prefix(prefix, lower) {
        match parsed_int(trim_ws(lower.skip(prefix.len() as int)), false) {
            Some(v) => if v <= usize::MAX {
                v as usize
            } else {
                0
            },
            None => 0,
        }
    } else {
        current
    }
}

/// One header line read: whether the headers are over, and the body
/// length known so far.
pub fn header_step(content_length: usize, line: &str) -> (r: (bool, usize))
    ensures
        r.0 == ends_headers(line@),
        !r.0 ==> r.1 == content_length_after(content_length, line@),
        r.0 ==> r.1 == content_length,
{
    let trimmed = trim_whitespace(line);
    if trimmed.as_str().is_empty() {
        return (true, content_length);
    }
    let lower = to_lowercase(line);
    let l = str_chars(lower.as_str());
    let prefix = str_chars("content-length:");
    if !chars_starts_with(l.as_slice(), prefix.as_slice()) {
        return (false, content_length);
    }
    let value = chars_range(&l, prefix.len(), l.len());
    proof {
        assert(l@.subrange(prefix@.len() as int, l@.len() as int) =~= l@.skip(prefix@.len() as int));
    }
    let v = trim_whitespace(value.as_str());
    let digits = str_chars(v.as_str());
    let n = match parse_usize(digits.as_slice()) {
        Some(n) => n,
        None => 0,
    };
    (false, n)
}

// ---------------------------------------------------------------------------
// Routing and responses
// ---------------------------------------------------------------------------

/// What a request asks for.
#[derive(Clone, Copy, Debug, PartialEq, Eq, Structural)]
pub enum Route {
    /// `OPTIONS` on any path (CORS preflight).
    Preflight,
    /// `POST /toggle`: show or hide the launcher.
    Toggle,
    /// `GET /status`.
    Status,
    /// `GET /` (health check).
    Health,
    NotFound,
}

pub open spec fn route_of(method: Seq<char>, path: Seq<char>) -> Route {
    if method == "OPTIONS"@ {
        Route::Preflight
    } else if method == "POST"@ && path == "/toggle"@ {
        Route::Toggle
    } else if method == "GET"@ && path == "/status"@ {
        Route::Status
    } else if method == "GET"@ && (path == "/"@ || path.len() == 0) {
        Route::Health
    } else {
        Route::NotFound
    }
}

/// The route of a method and path.
pub fn route(method: &str, path: &str) -> (r: Route)
    ensures
        r == route_of(method@, path@),
{
    if str_equal(method, "OPTIONS") {
        Route::Preflight
    } else if str_equal(method, "POST") && str_equal(path, "/toggle") {
        Route::Toggle
    } else if str_equal(method, "GET") && str_equal(path, "/status") {
        Route::Status
    } else if str_equal(method, "GET") && (str_equal(path, "/") || path.is_empty()) {
        Route::Health
    } else {
        Route::NotFound
    }
}

/// The CORS headers every routed answer carries.
pub open spec fn cors_headers() -> Seq<char> {
    "Access-Control-Allow-Origin: *\r\nAccess-Control-Allow-Methods: POST, GET, OPTIONS\r\nAccess-Control-Allow-Headers: *\r\n"@
}

/// The full response text; `Content-Length` counts the body's UTF-8 bytes.
pub open spec fn response(code: u16, status: Seq<char>, extra: Seq<char>, body: Seq<char>) -> Seq<char> {
    "HTTP/1.1 "@ + dec(code as nat) + " "@ + status + "\r\n"@ + extra
        + "Content-Type: application/json\r\nContent-Length: "@ + dec(
        (encode_utf8(body).len() as usize) as nat,
    ) + "\r\nConnection: close\r\n\r\n"@ + body
}

/// The text of a response.
pub fn response_text(code: u16, status: &str, extra_headers: &str, body: &str) -> (r: String)
    ensures
        r@ == response(code, status@, extra_headers@, body@),
{
    let mut r = String::new();
    r.append("HTTP/1.1 ");
    append_chars(&mut r, u64_to_dec(code as u64).as_slice());
    r.append(" ");
    r.append(status);
    r.append("\r\n");
    r.append(extra_headers);
    r.append("Content-Type: application/json\r\nContent-Length: ");
    append_chars(&mut r, u64_to_dec(body.len() as u64).as_slice());
    r.append("\r\nConnection: close\r\n\r\n");
    r.append(body);
    proof {
        assert(r@ =~= response(code, status@, extra_headers@, body@));
    }
    r
}

/// The answer to a request line that has no path.
pub fn bad_request_response() -> (r: String)
    ensures
        r@ == response(400, "Bad Request"@, Seq::empty(), Seq::empty()),
{
    let r = response_text(400, "Bad Request", "", "");
    proof {
        reveal_strlit("");
    }
    r
}

/// Code, status, headers and body answering a route; `launcher_visible`
/// is read only for `/status`.
pub open spec fn reply(r: Route, launcher_visible: bool) -> (u16, Seq<char>, Seq<char>, Seq<char>) {
    match r {
        Route::Preflight => (204, "No Content"@, cors_headers(), Seq::empty()),
        Route::Toggle => (200, "OK"@, cors_headers(), "{\"ok\":true}"@),
        Route::Status => (
            200,
            "OK"@,
            cors_headers(),
            "{\"running\":true,\"launcher_visible\":"@ + (if launcher_visible {
                "true"@
            } else {
                "false"@
            }) + "}"@,
        ),
        Route::Health => (200, "OK"@, cors_headers(), "flatui"@),
        Route::NotFound => (404, "Not Found"@, cors_headers(), Seq::empty()),
    }
}

/// The response text for a route.
pub fn route_response(r: Route, launcher_visible: bool) -> (text: String)
    ensures
        ({
            let (code, status, extra, body) = reply(r, launcher_visible);
            text@ == response(code, status, extra, body)
        }),
{
    let cors =
        "Access-Control-Allow-Origin: *\r\nAccess-Control-Allow-Methods: POST, GET, OPTIONS\r\nAccess-Control-Allow-Headers: *\r\n";
    proof {
        reveal_strlit("");
    }
    match r {
        Route::Preflight => response_text(204, "No Content", cors, ""),
        Route::Toggle => response_text(200, "OK", cors, "{\"ok\":true}"),
        Route::Status => {
            let mut body = String::new();
            body.append("{\"running\":true,\"launcher_visible\":");
            if launcher_visible {
                body.append("true");
            } else {
                body.append("false");
            }
            body.append("}");
            response_text(200, "OK", cors, body.as_str())
        },
        Route::Health => response_text(200, "OK", cors, "flatui"),
        Route::NotFound => response_text(404, "Not Found", cors, ""),
    }
}

} // verus!
