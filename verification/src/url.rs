//! URLs of the HTTP client: splitting a URL into scheme, host, port and
//! path, and the decisions taken on a redirect.
use vstd::prelude::*;
use crate::client_error::HttpClientError;
use crate::header_map::{header_insert, keys_unique, map_of, pairs_of};
use crate::request::{with_cookie_header, HttpMethod, HttpRequest};
use crate::response::HttpResponse;
use crate::text::{
    chars_of, decimal, ends_with, find_char, first_index_from, parse_unsigned, parse_unsigned_chars,
    push_decimal, starts_with, str_eq, str_starts_with, str_ends_with, string_of_range, trim, trim_bounds,
};
use crate::unicode::{lowercase, to_lowercase};

verus! {

broadcast use vstd::string::group_string_axioms;

/// Scheme and the text after `scheme://`, for `https` and `http` URLs.
pub open spec fn scheme_and_rest(u: Seq<char>) -> Option<(Seq<char>, Seq<char>)> {
    if starts_with(u, "https://"@) {
        Some(("https"@, u.skip(8)))
    } else if starts_with(u, "http://"@) {
        Some(("http"@, u.skip(7)))
    } else {
        None
    }
}

/// `s` up to its first `c`, or all of `s`.
pub open spec fn before_first(s: Seq<char>, c: char) -> Seq<char> {
    match first_index_from(s, c, 0) {
        Some(i) => s.take(i),
        None => s,
    }
}

/// The port used when the URL names none.
pub open spec fn default_port(scheme: Seq<char>) -> u16 {
    if scheme == "https"@ {
        443
    } else {
        80
    }
}

/// A port number written in decimal, as `str::parse::<u16>` reads it.
pub open spec fn port_value(s: Seq<char>) -> Option<u16> {
    match parse_unsigned(s, 65535) {
        Some(n) => Some(n as u16),
        None => None,
    }
}

/// Host and port of the authority `hp`: `[v6-address]`, optionally followed
/// by text, `:` and a port; or a host, optionally followed by `:` and a
/// port. Errors carry their message.
pub open spec fn host_and_port(scheme: Seq<char>, hp: Seq<char>) -> Result<(Seq<char>, u16), Seq<char>> {
    if hp.len() > 0 && hp[0] == '[' {
        match first_index_from(hp, ']', 0) {
            None => Err("IPv6 address format error"@),
            Some(cb) => {
                let after = hp.skip(cb + 1);
                match first_index_from(after, ':', 0) {
                    Some(cp) => match port_value(after.skip(cp + 1)) {
                        Some(p) => Ok((hp.subrange(1, cb), p)),
                        None => Err("Invalid port"@),
                    },
                    None => Ok((hp.subrange(1, cb), default_port(scheme))),
                }
            },
        }
    } else {
        match first_index_from(hp, ':', 0) {
            Some(i) => match port_value(hp.skip(i + 1)) {
                Some(p) => Ok((hp.take(i), p)),
                None => Err("Invalid port"@),
            },
            None => Ok((hp, default_port(scheme))),
        }
    }
}

/// Scheme, host, port and path of a URL, surrounding whitespace ignored:
/// the fragment is dropped, the path (with its query) starts at the first
/// `/` after the scheme and is `/` when there is none. Errors carry their
/// message.
pub open spec fn url_parts(url: Seq<char>) -> Result<(Seq<char>, Seq<char>, u16, Seq<char>), Seq<char>> {
    match scheme_and_rest(trim(url)) {
        None => Err("Missing protocol"@),
        Some((scheme, rest)) => {
            let r = before_first(rest, '#');
            let hp = before_first(r, '/');
            let path = match first_index_from(r, '/', 0) {
                Some(i) => r.skip(i),
                None => "/"@,
            };
            match host_and_port(scheme, hp) {
                Ok((host, port)) => Ok((scheme, host, port, path)),
                Err(m) => Err(m),
            }
        },
    }
}

/// Whether `cs[lo..hi]` starts with `prefix`.
fn range_starts_with(cs: &[char], lo: usize, hi: usize, prefix: &str) -> (r: bool)
    requires
        lo <= hi <= cs@.len(),
    ensures
        r == starts_with(cs@.subrange(lo as int, hi as int), prefix@),
{
    let p: Vec<char> = chars_of(prefix);
    let m: usize = p.len();
    if m > hi - lo {
        return false;
    }
    let ghost sub = cs@.subrange(lo as int, hi as int);
    let mut i: usize = 0;
    while i < m
        invariant
            p@ == prefix@,
            m == p@.len(),
            lo + m <= hi <= cs@.len(),
            i <= m,
            sub == cs@.subrange(lo as int, hi as int),
            forall|k: int| 0 <= k < i ==> #[trigger] sub[k] == p@[k],
        decreases m - i,
    {
        assert(sub[i as int] == cs@[lo + i]);
        if cs[lo + i] != p[i] {
            assert(sub.subrange(0, m as int)[i as int] != p@[i as int]);
            return false;
        }
        i = i + 1;
    }
    assert(sub.subrange(0, m as int) =~= prefix@);
    true
}

/// The characters of `cs[lo..hi]`.
fn chars_in(cs: &Vec<char>, lo: usize, hi: usize) -> (r: Vec<char>)
    requires
        lo <= hi <= cs@.len(),
    ensures
        r@ == cs@.subrange(lo as int, hi as int),
{
    let r: Vec<char> = vstd::slice::slice_to_vec(&cs.as_slice()[lo..hi]);
    assert(r@ =~= cs@.subrange(lo as int, hi as int));
    r
}

/// An `InvalidUrl` error with the given message.
fn invalid_url(m: &str) -> (e: HttpClientError)
    ensures
        e matches HttpClientError::InvalidUrl(s) && s@ == m@,
{
    HttpClientError::InvalidUrl(String::from_str(m))
}

/// The port written in `cs[lo..]`.
fn port_in(cs: &Vec<char>, lo: usize) -> (r: Option<u16>)
    requires
        lo <= cs@.len(),
    ensures
        r == port_value(cs@.skip(lo as int)),
{
    let n: usize = cs.len();
    assert(cs@.subrange(lo as int, n as int) =~= cs@.skip(lo as int));
    match parse_unsigned_chars(cs.as_slice(), lo, n, 65535) {
        Some(v) => Some(v as u16),
        None => None,
    }
}

/// Host and port of an authority, as [`host_and_port`] states.
fn split_host_port(https: bool, hp: &Vec<char>) -> (r: Result<(String, u16), HttpClientError>)
    ensures
        match host_and_port(if https { "https"@ } else { "http"@ }, hp@) {
            Ok((h, p)) => r matches Ok((rh, rp)) && rh@ == h && rp == p,
            Err(m) => r matches Err(HttpClientError::InvalidUrl(s)) && s@ == m,
        },
{
    let ghost scheme: Seq<char> = if https { "https"@ } else { "http"@ };
    let dflt: u16 = if https { 443 } else { 80 };
    assert(dflt == default_port(scheme)) by {
        reveal_strlit("https");
        reveal_strlit("http");
        assert("https"@.len() != "http"@.len());
    }
    let n: usize = hp.len();
    if n > 0 && hp[0] == '[' {
        match find_char(hp.as_slice(), ']', 0, n) {
            None => Err(invalid_url("IPv6 address format error")),
            Some(cb) => {
                proof { crate::text::lemma_first_index_props(hp@, ']', 0); }
                let host: String = string_of_range(hp.as_slice(), 1, cb);
                let after: Vec<char> = chars_in(hp, cb + 1, n);
                assert(after@ =~= hp@.skip(cb + 1));
                match find_char(after.as_slice(), ':', 0, after.len()) {
                    Some(cp) => {
                        proof { crate::text::lemma_first_index_props(after@, ':', 0); }
                        assert(after@.skip(cp + 1) =~= hp@.skip(cb + 2 + cp));
                        match port_in(hp, cb + 2 + cp) {
                            Some(p) => Ok((host, p)),
                            None => Err(invalid_url("Invalid port")),
                        }
                    },
                    None => Ok((host, dflt)),
                }
            },
        }
    } else {
        match find_char(hp.as_slice(), ':', 0, n) {
            Some(i) => {
                proof { crate::text::lemma_first_index_props(hp@, ':', 0); }
                let host: String = string_of_range(hp.as_slice(), 0, i);
                assert(hp@.subrange(0, i as int) =~= hp@.take(i as int));
                match port_in(hp, i + 1) {
                    Some(p) => Ok((host, p)),
                    None => Err(invalid_url("Invalid port")),
                }
            },
            None => {
                let host: String = string_of_range(hp.as_slice(), 0, n);
                assert(hp@.subrange(0, n as int) =~= hp@);
                Ok((host, dflt))
            },
        }
    }
}

/// Splits a URL into scheme, host, port and path, as [`url_parts`] states;
/// an error is `InvalidUrl` with its message.
pub fn parse_url(url: &str) -> (r: Result<(String, String, u16, String), HttpClientError>)
    ensures
        match url_parts(url@) {
            Ok((s, h, p, pa)) => r matches Ok((rs, rh, rp, rpa)) && rs@ == s && rh@ == h && rp == p && rpa@ == pa,
            Err(m) => r matches Err(HttpClientError::InvalidUrl(e)) && e@ == m,
        },
{
    let cs: Vec<char> = chars_of(url);
    let (lo, hi) = trim_bounds(cs.as_slice(), 0, cs.len());
    assert(cs@.subrange(0, cs@.len() as int) =~= url@);
    let ghost u = trim(url@);
    let https: bool = range_starts_with(cs.as_slice(), lo, hi, "https://");
    let http: bool = range_starts_with(cs.as_slice(), lo, hi, "http://");
    if !https && !http {
        return Err(invalid_url("Missing protocol"));
    }
    let start: usize = if https {
        proof { reveal_strlit("https://"); }
        lo + 8
    } else {
        proof { reveal_strlit("http://"); }
        lo + 7
    };
    let scheme: String = if https { String::from_str("https") } else { String::from_str("http") };
    let rest: Vec<char> = chars_in(&cs, start, hi);
    assert(rest@ =~= u.skip(start - lo));
    let r: Vec<char> = match find_char(rest.as_slice(), '#', 0, rest.len()) {
        Some(f) => {
            proof { crate::text::lemma_first_index_props(rest@, '#', 0); }
            let v: Vec<char> = chars_in(&rest, 0, f);
            assert(v@ =~= rest@.take(f as int));
            v
        },
        None => chars_in(&rest, 0, rest.len()),
    };
    assert(r@ =~= before_first(rest@, '#'));
    let (hp, path): (Vec<char>, String) = match find_char(r.as_slice(), '/', 0, r.len()) {
        Some(i) => {
            proof { crate::text::lemma_first_index_props(r@, '/', 0); }
            let a: Vec<char> = chars_in(&r, 0, i);
            let p: String = string_of_range(r.as_slice(), i, r.len());
            assert(a@ =~= r@.take(i as int));
            assert(r@.subrange(i as int, r@.len() as int) =~= r@.skip(i as int));
            (a, p)
        },
        None => {
            let a: Vec<char> = chars_in(&r, 0, r.len());
            assert(a@ =~= r@);
            (a, String::from_str("/"))
        },
    };
    match split_host_port(https, &hp) {
        Ok((host, port)) => Ok((scheme, host, port, path)),
        Err(e) => Err(e),
    }
}

/// Index of the last `c` in `s`, if any.
pub open spec fn last_index_of(s: Seq<char>, c: char) -> Option<int>
    decreases s.len(),
{
    if s.len() == 0 {
        None
    } else if s.last() == c {
        Some(s.len() - 1)
    } else {
        last_index_of(s.drop_last(), c)
    }
}

/// The part of a path that a relative location is resolved against: the
/// path itself when it ends with `/`, else what comes before its last `/`
/// (or `/` when it has none).
pub open spec fn redirect_base(path: Seq<char>) -> Seq<char> {
    if ends_with(path, "/"@) {
        path
    } else {
        match last_index_of(path, '/') {
            Some(i) => path.take(i),
            None => "/"@,
        }
    }
}

/// `scheme://host:port`.
pub open spec fn origin_text(scheme: Seq<char>, host: Seq<char>, port: u16) -> Seq<char> {
    scheme + "://"@ + host + ":"@ + decimal(port as nat)
}

/// The URL a redirect's `Location` leads to from `scheme://host:port/path`:
/// an absolute `http(s)://` URL as it is; `//...` under the same scheme;
/// `/...` on the same origin; anything else after the base of the path.
pub open spec fn redirect_target(
    scheme: Seq<char>,
    host: Seq<char>,
    port: u16,
    path: Seq<char>,
    location: Seq<char>,
) -> Seq<char> {
    if starts_with(location, "http://"@) || starts_with(location, "https://"@) {
        location
    } else if starts_with(location, "//"@) {
        scheme + ":"@ + location
    } else if starts_with(location, "/"@) {
        origin_text(scheme, host, port) + location
    } else if redirect_base(path) == "/"@ {
        origin_text(scheme, host, port) + "/"@ + location
    } else {
        origin_text(scheme, host, port) + redirect_base(path) + "/"@ + location
    }
}

/// Index of the last `c` in `cs`.
fn last_index(cs: &Vec<char>, c: char) -> (r: Option<usize>)
    ensures
        r matches Some(i) ==> i < cs@.len() && last_index_of(cs@, c) == Some(i as int),
        r is None ==> last_index_of(cs@, c) is None,
{
    let mut j: usize = cs.len();
    assert(cs@.take(j as int) =~= cs@);
    while j > 0
        invariant
            j <= cs@.len(),
            last_index_of(cs@, c) == last_index_of(cs@.take(j as int), c),
        decreases j,
    {
        assert(cs@.take(j as int).drop_last() =~= cs@.take(j - 1));
        if cs[j - 1] == c {
            return Some(j - 1);
        }
        j = j - 1;
    }
    None
}

/// `scheme://host:port` appended to `out`.
fn push_origin(out: &mut String, scheme: &str, host: &str, port: u16)
    ensures
        final(out)@ == old(out)@ + origin_text(scheme@, host@, port),
{
    out.append(scheme);
    out.append("://");
    out.append(host);
    out.append(":");
    push_decimal(out, port as u64);
}

/// The URL a redirect leads to, as [`redirect_target`] states.
pub fn redirect_url(scheme: &str, host: &str, port: u16, path: &str, location: &str) -> (r: String)
    ensures
        r@ == redirect_target(scheme@, host@, port, path@, location@),
{
    if str_starts_with(location, "http://") || str_starts_with(location, "https://") {
        return String::from_str(location);
    }
    if str_starts_with(location, "//") {
        let mut s: String = String::from_str(scheme);
        s.append(":");
        s.append(location);
        return s;
    }
    let mut s: String = String::new();
    push_origin(&mut s, scheme, host, port);
    if str_starts_with(location, "/") {
        s.append(location);
        return s;
    }
    let base: String = if str_ends_with(path, "/") {
        String::from_str(path)
    } else {
        let cs: Vec<char> = chars_of(path);
        match last_index(&cs, '/') {
            Some(i) => {
                assert(cs@.subrange(0, i as int) =~= cs@.take(i as int));
                let b: String = string_of_range(cs.as_slice(), 0, i);
                assert(b@ == redirect_base(path@));
                b
            },
            None => {
                let b: String = String::from_str("/");
                assert(b@ == redirect_base(path@));
                b
            },
        }
    };
    assert(base@ == redirect_base(path@));
    if !str_eq(base.as_str(), "/") {
        s.append(base.as_str());
    }
    s.append("/");
    s.append(location);
    s
}

/// The method of the request that follows a redirect: `GET` after 301, 302
/// and 303, the same method otherwise.
pub open spec fn redirect_method_for(status: u16, method: HttpMethod) -> HttpMethod {
    if 301 <= status <= 303 {
        HttpMethod::Get
    } else {
        method
    }
}

/// After 301, 302 and 303 every method becomes `GET`; after any other
/// status the method is kept.
pub proof fn lemma_redirect_method(status: u16, method: HttpMethod)
    ensures
        301 <= status <= 303 ==> redirect_method_for(status, method) == HttpMethod::Get,
        !(301 <= status <= 303) ==> redirect_method_for(status, method) == method,
{
}

/// The method of the request that follows a redirect with this status.
pub fn redirect_method(status: u16, method: HttpMethod) -> (r: HttpMethod)
    ensures
        r == redirect_method_for(status, method),
        301 <= status <= 303 ==> r == HttpMethod::Get,
        !(301 <= status <= 303) ==> r == method,
{
    if 301 <= status && status <= 303 {
        HttpMethod::Get
    } else {
        method
    }
}

/// Total time, in nanoseconds, after which a request with its redirects
/// is given up.
pub const REDIRECT_TIME_LIMIT_NANOS: u128 = 300_000_000_000;

/// Whether the redirect chain may go on to `url`: not after the time limit
/// (`Timeout`), not when `max_redirects` were followed, and not to a URL
/// already visited.
pub fn check_redirect(
    elapsed_nanos: u128,
    redirect_count: usize,
    max_redirects: usize,
    visited: &Vec<String>,
    url: &str,
) -> (r: Result<(), HttpClientError>)
    ensures
        elapsed_nanos > REDIRECT_TIME_LIMIT_NANOS ==> r matches Err(HttpClientError::Timeout),
        elapsed_nanos <= REDIRECT_TIME_LIMIT_NANOS && redirect_count >= max_redirects ==> (r matches Err(
            HttpClientError::InvalidResponse(m),
        ) && m@ == "Redirect count exceed limit: "@ + decimal(max_redirects as nat)),
        elapsed_nanos <= REDIRECT_TIME_LIMIT_NANOS && redirect_count < max_redirects
            && (exists|i: int| 0 <= i < visited@.len() && #[trigger] visited@[i]@ == url@) ==> (r matches Err(
            HttpClientError::InvalidResponse(m),
        ) && m@ == "Detect redirect loop: "@ + url@),
        r is Ok <==> elapsed_nanos <= REDIRECT_TIME_LIMIT_NANOS && redirect_count < max_redirects
            && forall|i: int| 0 <= i < visited@.len() ==> #[trigger] visited@[i]@ != url@,
{
    if elapsed_nanos > REDIRECT_TIME_LIMIT_NANOS {
        return Err(HttpClientError::Timeout);
    }
    if redirect_count >= max_redirects {
        let mut m: String = String::from_str("Redirect count exceed limit: ");
        push_decimal(&mut m, max_redirects as u64);
        return Err(HttpClientError::InvalidResponse(m));
    }
    let mut i: usize = 0;
    while i < visited.len()
        invariant
            elapsed_nanos <= REDIRECT_TIME_LIMIT_NANOS,
            redirect_count < max_redirects,
            i <= visited@.len(),
            forall|k: int| 0 <= k < i ==> #[trigger] visited@[k]@ != url@,
        decreases visited@.len() - i,
    {
        if str_eq(visited[i].as_str(), url) {
            let mut m: String = String::from_str("Detect redirect loop: ");
            m.append(url);
            return Err(HttpClientError::InvalidResponse(m));
        }
        i = i + 1;
    }
    Ok(())
}

/// The `location` header of a 3xx response, if it has one.
pub fn redirect_location(response: &HttpResponse) -> (r: Option<String>)
    requires
        response.wf(),
    ensures
        r is Some <==> 300 <= response.status_code < 400 && response.header_map().dom().contains("location"@),
        r matches Some(l) ==> l@ == response.header_map()["location"@],
{
    if response.status_code < 300 || response.status_code >= 400 {
        return None;
    }
    match response.get_header("location") {
        Some(l) => Some(l.clone()),
        None => None,
    }
}

/// The header map of `p` without the headers whose lower-cased name is
/// `cookie`.
pub open spec fn without_cookie(p: Seq<(Seq<char>, Seq<char>)>) -> Map<Seq<char>, Seq<char>>
    decreases p.len(),
{
    if p.len() == 0 {
        Map::empty()
    } else if lowercase(p.last().0) == "cookie"@ {
        without_cookie(p.drop_last())
    } else {
        without_cookie(p.drop_last()).insert(p.last().0, p.last().1)
    }
}

/// The request that follows a redirect with `status` to `redirect_url`:
/// the method by [`redirect_method_for`], the headers without any cookie
/// header, a `Referer` with the old URL, the `Cookie` header given for the
/// new URL, and the body kept unless the method became `GET`.
pub fn redirect_request(
    request: &HttpRequest,
    status: u16,
    redirect_url: &str,
    cookie_header: Option<String>,
) -> (r: HttpRequest)
    requires
        request.wf(),
    ensures
        r.wf(),
        r.method == redirect_method_for(status, request.method),
        r.url@ == redirect_url@,
        r.header_map() == with_cookie_header(
            without_cookie(pairs_of(request.headers@)).insert("Referer"@, request.url@),
            match cookie_header {
                Some(h) => Some(h@),
                None => None,
            },
        ),
        r.method == HttpMethod::Get ==> r.body is None,
        301 <= status <= 303 ==> r.method == HttpMethod::Get && r.body is None,
        r.method != HttpMethod::Get ==> match request.body {
            Some(b) => r.body matches Some(rb) && rb@ == b@,
            None => r.body is None,
        },
{
    let method: HttpMethod = redirect_method(status, request.method);
    let mut headers: Vec<(String, String)> = Vec::new();
    let ghost p = pairs_of(request.headers@);
    let mut i: usize = 0;
    while i < request.headers.len()
        invariant
            p == pairs_of(request.headers@),
            i <= request.headers@.len(),
            keys_unique(pairs_of(headers@)),
            map_of(pairs_of(headers@)) == without_cookie(p.take(i as int)),
        decreases request.headers@.len() - i,
    {
        assert(p.take(i + 1).drop_last() =~= p.take(i as int));
        let k: String = to_lowercase(request.headers[i].0.as_str());
        if !str_eq(k.as_str(), "cookie") {
            header_insert(&mut headers, request.headers[i].0.clone(), request.headers[i].1.clone());
        }
        i = i + 1;
    }
    assert(p.take(i as int) =~= p);
    header_insert(&mut headers, String::from_str("Referer"), request.url.clone());
    match cookie_header {
        Some(h) => {
            header_insert(&mut headers, String::from_str("Cookie"), h);
        },
        None => {},
    }
    let body: Option<Vec<u8>> = if method != HttpMethod::Get {
        match &request.body {
            Some(b) => {
                let c: Vec<u8> = b.clone();
                assert(c@ =~= b@);
                Some(c)
            },
            None => None,
        }
    } else {
        None
    };
    HttpRequest { method, url: String::from_str(redirect_url), headers, body }
}

} // verus!
