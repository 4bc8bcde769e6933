//! HTTP/1.1 request building.
use vstd::prelude::*;
use vstd::string::{StrSliceExecFns, StringSliceAdditionalSpecFns};
use vstd::utf8::encode_utf8;
use crate::tls_handshake::push_all;
use crate::cookie::{cookie_header, CookieStore};
use crate::header_map::{header_insert, keys_unique, map_of, pairs_of};
use crate::text::{
    ascii_lower, ascii_upper, chars_of, decimal, eq_ignore_ascii_case, push_char, push_decimal,
    range_eq_ignore_ascii_case, str_eq, to_ascii_lower, to_ascii_upper,
};
use crate::unicode::{lowercase, to_lowercase, utf8_lossy, utf8_lossy_decode};

verus! {

broadcast use vstd::string::group_string_axioms;

/// HTTP method
#[derive(Debug, Clone, Copy, PartialEq, Eq, Structural)]
pub enum HttpMethod {
    Get,
    Post,
    Put,
    Delete,
    Head,
    Options,
    Patch,
}

/// The method's name.
pub open spec fn method_text(m: HttpMethod) -> Seq<char> {
    match m {
        HttpMethod::Get => "GET"@,
        HttpMethod::Post => "POST"@,
        HttpMethod::Put => "PUT"@,
        HttpMethod::Delete => "DELETE"@,
        HttpMethod::Head => "HEAD"@,
        HttpMethod::Options => "OPTIONS"@,
        HttpMethod::Patch => "PATCH"@,
    }
}

impl HttpMethod {
    /// The method's name, such as `GET`.
    pub fn as_str(&self) -> (r: &'static str)
        ensures
            r@ == method_text(*self),
    {
        match self {
            HttpMethod::Get => "GET",
            HttpMethod::Post => "POST",
            HttpMethod::Put => "PUT",
            HttpMethod::Delete => "DELETE",
            HttpMethod::Head => "HEAD",
            HttpMethod::Options => "OPTIONS",
            HttpMethod::Patch => "PATCH",
        }
    }
}

/// HTTP request
#[derive(Debug, Clone)]
pub struct HttpRequest {
    pub method: HttpMethod,
    pub url: String,
    /// Header names and values; no name twice.
    pub headers: Vec<(String, String)>,
    pub body: Option<Vec<u8>>,
}

/// `s` without `'\r'` and `'\n'`.
pub open spec fn strip_crlf(s: Seq<char>) -> Seq<char>
    decreases s.len(),
{
    if s.len() == 0 {
        Seq::empty()
    } else {
        strip_crlf(s.drop_last()) + if s.last() == '\r' || s.last() == '\n' {
            Seq::<char>::empty()
        } else {
            seq![s.last()]
        }
    }
}

/// Appends `s` without its `'\r'` and `'\n'`.
fn push_stripped(out: &mut String, s: &str)
    ensures
        final(out)@ == old(out)@ + strip_crlf(s@),
{
    let cs: Vec<char> = chars_of(s);
    let mut i: usize = 0;
    while i < cs.len()
        invariant
            cs@ == s@,
            i <= cs@.len(),
            out@ == old(out)@ + strip_crlf(cs@.subrange(0, i as int)),
        decreases cs@.len() - i,
    {
        assert(cs@.subrange(0, i + 1).drop_last() =~= cs@.subrange(0, i as int));
        let c: char = cs[i];
        if c != '\r' && c != '\n' {
            push_char(out, c);
        }
        i = i + 1;
        assert(out@ =~= old(out)@ + strip_crlf(cs@.subrange(0, i as int)));
    }
    assert(cs@.subrange(0, i as int) =~= s@);
}

/// `key: value\r\n` lines of the headers whose lower-cased name is not
/// `host`, in table order, with `'\r'` and `'\n'` removed from names and
/// values.
pub open spec fn header_lines_text(p: Seq<(Seq<char>, Seq<char>)>) -> Seq<char>
    decreases p.len(),
{
    if p.len() == 0 {
        Seq::empty()
    } else {
        let (k, v) = p.last();
        header_lines_text(p.drop_last()) + if lowercase(k) == "host"@ {
            Seq::<char>::empty()
        } else {
            strip_crlf(k) + ": "@ + strip_crlf(v) + "\r\n"@
        }
    }
}

/// Whether some header is named `connection`, up to ASCII case.
pub open spec fn has_connection_header(p: Seq<(Seq<char>, Seq<char>)>) -> bool {
    exists|i: int| 0 <= i < p.len() && eq_ignore_ascii_case(#[trigger] p[i].0, "connection"@)
}

/// Text of an HTTP/1.1 request: request line, `Host`, the other headers,
/// `Content-Length` when there is a body, `Connection: close` unless a
/// `Connection` header is set, a blank line, and the body decoded as UTF-8
/// with replacement.
pub open spec fn http1_request_text(
    method: HttpMethod,
    p: Seq<(Seq<char>, Seq<char>)>,
    body: Option<Seq<u8>>,
    host: Seq<char>,
    path: Seq<char>,
) -> Seq<char> {
    strip_crlf(method_text(method)) + " "@ + strip_crlf(path) + " HTTP/1.1\r\nHost: "@ + strip_crlf(host) + "\r\n"@
        + header_lines_text(p) + (match body {
        Some(b) => "Content-Length: "@ + decimal(b.len()) + "\r\n"@,
        None => Seq::<char>::empty(),
    }) + (if has_connection_header(p) {
        Seq::<char>::empty()
    } else {
        "Connection: close\r\n"@
    }) + "\r\n"@ + (match body {
        Some(b) => utf8_lossy(b),
        None => Seq::<char>::empty(),
    })
}

/// `key: value\r\n` lines of all headers, in order, with `'\r'` and `'\n'`
/// removed from names and values.
pub open spec fn all_header_lines(p: Seq<(Seq<char>, Seq<char>)>) -> Seq<char>
    decreases p.len(),
{
    if p.len() == 0 {
        Seq::empty()
    } else {
        all_header_lines(p.drop_last()) + strip_crlf(p.last().0) + ": "@ + strip_crlf(p.last().1) + "\r\n"@
    }
}

/// Whether some header is named `host`, up to ASCII case.
pub open spec fn has_host_header(p: Seq<(Seq<char>, Seq<char>)>) -> bool {
    exists|i: int| 0 <= i < p.len() && eq_ignore_ascii_case(#[trigger] p[i].0, "host"@)
}

/// Head of an HTTP/1.1 request sent as bytes: request line, `Host` unless
/// one of the `sent` headers is a host header, the `sent` headers in
/// order, `Content-Length` for a non-empty body, `Connection: close` unless
/// the request's own headers `own` name a connection header, and a blank
/// line.
pub open spec fn http1_head_text(
    method: HttpMethod,
    sent: Seq<(Seq<char>, Seq<char>)>,
    own: Seq<(Seq<char>, Seq<char>)>,
    body_len: nat,
    host: Seq<char>,
    path: Seq<char>,
) -> Seq<char> {
    strip_crlf(method_text(method)) + " "@ + strip_crlf(path) + " HTTP/1.1\r\n"@ + (if has_host_header(sent) {
        Seq::<char>::empty()
    } else {
        "Host: "@ + strip_crlf(host) + "\r\n"@
    }) + all_header_lines(sent) + (if body_len > 0 {
        "Content-Length: "@ + decimal(body_len) + "\r\n"@
    } else {
        Seq::<char>::empty()
    }) + (if has_connection_header(own) {
        Seq::<char>::empty()
    } else {
        "Connection: close\r\n"@
    }) + "\r\n"@
}

/// A header map after inserting, in table order, each name with its
/// characters at even positions in ASCII upper case and at odd positions in
/// ASCII lower case.
pub open spec fn randomized_case_map(p: Seq<(Seq<char>, Seq<char>)>) -> Map<Seq<char>, Seq<char>>
    decreases p.len(),
{
    if p.len() == 0 {
        Map::empty()
    } else {
        randomized_case_map(p.drop_last()).insert(alternate_case(p.last().0), p.last().1)
    }
}

/// `s` with even positions in ASCII upper case and odd ones in lower case.
pub open spec fn alternate_case(s: Seq<char>) -> Seq<char> {
    Seq::new(s.len(), |i: int| if i % 2 == 0 { ascii_upper(s[i]) } else { ascii_lower(s[i]) })
}

/// The header map with `Cookie` set to `h`, if there is one.
pub open spec fn with_cookie_header(m: Map<Seq<char>, Seq<char>>, h: Option<Seq<char>>) -> Map<Seq<char>, Seq<char>> {
    match h {
        Some(v) => m.insert("Cookie"@, v),
        None => m,
    }
}

/// Adds a `Cookie` header with the store's cookies for the request, if any
/// go with it (by the system clock).
pub fn add_cookies_to_request(
    request: &mut HttpRequest,
    cookie_store: &CookieStore,
    host: &str,
    path: &str,
    is_secure: bool,
)
    requires
        old(request).wf(),
    ensures
        final(request).wf(),
        final(request).method == old(request).method,
        final(request).url == old(request).url,
        final(request).body == old(request).body,
        exists|now: u128| final(request).header_map() == with_cookie_header(
            old(request).header_map(),
            #[trigger] cookie_header(cookie_store.table(), host@, path@, is_secure, now),
        ),
{
    match cookie_store.generate_cookie_header(host, path, is_secure) {
        Some(h) => {
            header_insert(&mut request.headers, String::from_str("Cookie"), h);
        },
        None => {},
    }
}

impl HttpRequest {
    /// No header name occurs twice.
    pub open spec fn wf(&self) -> bool {
        keys_unique(pairs_of(self.headers@))
    }

    /// The header map.
    pub open spec fn header_map(&self) -> Map<Seq<char>, Seq<char>> {
        map_of(pairs_of(self.headers@))
    }

    /// A request with no header and no body.
    pub fn new(method: HttpMethod, url: &str) -> (r: Self)
        ensures
            r.wf(),
            r.method == method,
            r.url@ == url@,
            r.headers@.len() == 0,
            r.body is None,
    {
        HttpRequest { method, url: String::from_str(url), headers: Vec::new(), body: None }
    }

    /// Sets the `User-Agent` header.
    pub fn with_user_agent(self, user_agent: &str) -> (r: Self)
        requires
            self.wf(),
        ensures
            r.wf(),
            r.method == self.method,
            r.url == self.url,
            r.body == self.body,
            r.header_map() == self.header_map().insert("User-Agent"@, user_agent@),
    {
        let mut r = self;
        header_insert(&mut r.headers, String::from_str("User-Agent"), String::from_str(user_agent));
        r
    }

    /// Sets a header.
    pub fn with_header(self, key: &str, value: &str) -> (r: Self)
        requires
            self.wf(),
        ensures
            r.wf(),
            r.method == self.method,
            r.url == self.url,
            r.body == self.body,
            r.header_map() == self.header_map().insert(key@, value@),
    {
        let mut r = self;
        header_insert(&mut r.headers, String::from_str(key), String::from_str(value));
        r
    }

    /// Sets the body.
    pub fn with_body(self, body: Vec<u8>) -> (r: Self)
        ensures
            r.method == self.method,
            r.url == self.url,
            r.headers == self.headers,
            r.body == Some(body),
    {
        let mut r = self;
        r.body = Some(body);
        r
    }

    /// Sets a JSON body: the `Content-Type` header becomes
    /// `application/json` and the body the text's UTF-8 bytes.
    pub fn with_json_body(self, json: &str) -> (r: Self)
        requires
            self.wf(),
        ensures
            r.wf(),
            r.method == self.method,
            r.url == self.url,
            r.header_map() == self.header_map().insert("Content-Type"@, "application/json"@),
            r.body matches Some(b) && b@ == json.spec_bytes(),
    {
        let mut r = self;
        header_insert(&mut r.headers, String::from_str("Content-Type"), String::from_str("application/json"));
        r.body = Some(vstd::slice::slice_to_vec(json.as_bytes()));
        r
    }

    /// The text of the request as HTTP/1.1, headers in table order, with
    /// `'\r'` and `'\n'` removed from the method, path, host and header
    /// names and values. The body goes in as UTF-8 text.
    pub fn build_http1_request(&self, host: &str, path: &str) -> (r: String)
        ensures
            r@ == http1_request_text(
                self.method,
                pairs_of(self.headers@),
                match self.body {
                    Some(b) => Some(b@),
                    None => None,
                },
                host@,
                path@,
            ),
    {
        let ghost p = pairs_of(self.headers@);
        let mut request: String = String::new();
        push_stripped(&mut request, self.method.as_str());
        request.append(" ");
        push_stripped(&mut request, path);
        request.append(" HTTP/1.1\r\nHost: ");
        push_stripped(&mut request, host);
        request.append("\r\n");
        let ghost prefix = request@;
        let mut i: usize = 0;
        let mut has_connection: bool = false;
        while i < self.headers.len()
            invariant
                p == pairs_of(self.headers@),
                i <= self.headers@.len(),
                request@ == prefix + header_lines_text(p.subrange(0, i as int)),
                has_connection == exists|k: int| 0 <= k < i && eq_ignore_ascii_case(#[trigger] p[k].0, "connection"@),
            decreases self.headers@.len() - i,
        {
            assert(p.subrange(0, i + 1).drop_last() =~= p.subrange(0, i as int));
            let key: &String = &self.headers[i].0;
            let value: &String = &self.headers[i].1;
            let lower: String = to_lowercase(key.as_str());
            if !str_eq(lower.as_str(), "host") {
                push_stripped(&mut request, key.as_str());
                request.append(": ");
                push_stripped(&mut request, value.as_str());
                request.append("\r\n");
            }
            let kc: Vec<char> = chars_of(key.as_str());
            let n: usize = kc.len();
            assert(kc@.subrange(0, n as int) =~= kc@);
            if range_eq_ignore_ascii_case(kc.as_slice(), 0, n, "connection") {
                has_connection = true;
            }
            i = i + 1;
            assert(request@ =~= prefix + header_lines_text(p.subrange(0, i as int)));
        }
        assert(p.subrange(0, i as int) =~= p);
        match &self.body {
            Some(b) => {
                request.append("Content-Length: ");
                push_decimal(&mut request, b.len() as u64);
                request.append("\r\n");
            },
            None => {},
        }
        if !has_connection {
            request.append("Connection: close\r\n");
        }
        request.append("\r\n");
        match &self.body {
            Some(b) => {
                let text: String = utf8_lossy_decode(b.as_slice());
                request.append(text.as_str());
            },
            None => {},
        }
        request
    }

    /// The request as bytes: the head by [`http1_head_text`] in UTF-8,
    /// then the body's bytes as they are. The headers are sent in the order
    /// of `ordered_headers` (as a header-order table arranges them) when
    /// given, else in table order.
    #[verifier::rlimit(40)]
    pub fn build_http1_request_bytes(
        &self,
        host: &str,
        path: &str,
        ordered_headers: Option<&[(String, String)]>,
    ) -> (r: Vec<u8>)
        ensures
            r@ == encode_utf8(http1_head_text(
                self.method,
                match ordered_headers {
                    Some(o) => pairs_of(o@),
                    None => pairs_of(self.headers@),
                },
                pairs_of(self.headers@),
                match self.body {
                    Some(b) => b@.len(),
                    None => 0,
                },
                host@,
                path@,
            )) + match self.body {
                Some(b) => b@,
                None => Seq::<u8>::empty(),
            },
    {
        let sent: &[(String, String)] = match ordered_headers {
            Some(o) => o,
            None => self.headers.as_slice(),
        };
        let ghost p = pairs_of(sent@);
        let mut head: String = String::new();
        push_stripped(&mut head, self.method.as_str());
        head.append(" ");
        push_stripped(&mut head, path);
        head.append(" HTTP/1.1\r\n");
        let mut has_host: bool = false;
        let mut j: usize = 0;
        while j < sent.len()
            invariant
                p == pairs_of(sent@),
                j <= sent@.len(),
                has_host == exists|k: int| 0 <= k < j && eq_ignore_ascii_case(#[trigger] p[k].0, "host"@),
            decreases sent@.len() - j,
        {
            assert(p[j as int].0 == sent@[j as int].0@);
            let kc: Vec<char> = chars_of(sent[j].0.as_str());
            let n: usize = kc.len();
            assert(kc@.subrange(0, n as int) =~= kc@);
            if range_eq_ignore_ascii_case(kc.as_slice(), 0, n, "host") {
                has_host = true;
            }
            j = j + 1;
        }
        assert(has_host == has_host_header(p));
        if !has_host {
            head.append("Host: ");
            push_stripped(&mut head, host);
            head.append("\r\n");
        }
        let ghost prefix = head@;
        let mut i: usize = 0;
        while i < sent.len()
            invariant
                p == pairs_of(sent@),
                i <= sent@.len(),
                head@ == prefix + all_header_lines(p.subrange(0, i as int)),
            decreases sent@.len() - i,
        {
            assert(p.subrange(0, i + 1).drop_last() =~= p.subrange(0, i as int));
            push_stripped(&mut head, sent[i].0.as_str());
            head.append(": ");
            push_stripped(&mut head, sent[i].1.as_str());
            head.append("\r\n");
            i = i + 1;
            assert(head@ =~= prefix + all_header_lines(p.subrange(0, i as int)));
        }
        assert(p.subrange(0, i as int) =~= p);
        let ghost q = pairs_of(self.headers@);
        let mut has_connection: bool = false;
        let mut k: usize = 0;
        while k < self.headers.len()
            invariant
                q == pairs_of(self.headers@),
                k <= self.headers@.len(),
                has_connection == exists|m: int| 0 <= m < k && eq_ignore_ascii_case(#[trigger] q[m].0, "connection"@),
            decreases self.headers@.len() - k,
        {
            assert(q[k as int].0 == self.headers@[k as int].0@);
            let kc: Vec<char> = chars_of(self.headers[k].0.as_str());
            let n: usize = kc.len();
            assert(kc@.subrange(0, n as int) =~= kc@);
            if range_eq_ignore_ascii_case(kc.as_slice(), 0, n, "connection") {
                has_connection = true;
            }
            k = k + 1;
        }
        assert(has_connection == has_connection_header(q));
        let body_len: usize = match &self.body {
            Some(b) => b.len(),
            None => 0,
        };
        if body_len > 0 {
            head.append("Content-Length: ");
            push_decimal(&mut head, body_len as u64);
            head.append("\r\n");
        }
        if !has_connection {
            head.append("Connection: close\r\n");
        }
        head.append("\r\n");
        assert(p == match ordered_headers {
            Some(o) => pairs_of(o@),
            None => pairs_of(self.headers@),
        });
        assert(body_len as nat == match self.body {
            Some(b) => b@.len(),
            None => 0,
        });
        assert(head@ =~= http1_head_text(self.method, p, q, body_len as nat, host@, path@));
        let mut out: Vec<u8> = head.as_str().as_bytes_vec();
        assert(out@ == encode_utf8(head@));
        match &self.body {
            Some(b) => {
                push_all(&mut out, b.as_slice());
            },
            None => {},
        }
        out
    }

    /// Rewrites each header name with its characters at even positions in
    /// ASCII upper case and at odd positions in lower case; names that
    /// coincide afterwards keep the value of the later one.
    pub fn with_randomized_header_case(&mut self)
        requires
            old(self).wf(),
        ensures
            final(self).wf(),
            final(self).method == old(self).method,
            final(self).url == old(self).url,
            final(self).body == old(self).body,
            final(self).header_map() == randomized_case_map(pairs_of(old(self).headers@)),
    {
        let ghost p = pairs_of(self.headers@);
        let mut new_headers: Vec<(String, String)> = Vec::new();
        let mut i: usize = 0;
        assert(pairs_of(new_headers@) =~= Seq::<(Seq<char>, Seq<char>)>::empty());
        assert(map_of(pairs_of(new_headers@)) =~= randomized_case_map(p.subrange(0, 0)));
        while i < self.headers.len()
            invariant
                p == pairs_of(self.headers@),
                i <= self.headers@.len(),
                keys_unique(pairs_of(new_headers@)),
                map_of(pairs_of(new_headers@)) == randomized_case_map(p.subrange(0, i as int)),
            decreases self.headers@.len() - i,
        {
            assert(p.subrange(0, i + 1).drop_last() =~= p.subrange(0, i as int));
            let kc: Vec<char> = chars_of(self.headers[i].0.as_str());
            let mut key: String = String::new();
            let mut j: usize = 0;
            while j < kc.len()
                invariant
                    j <= kc@.len(),
                    key@ == alternate_case(kc@.subrange(0, j as int)),
                decreases kc@.len() - j,
            {
                if j % 2 == 0 {
                    push_char(&mut key, to_ascii_upper(kc[j]));
                } else {
                    push_char(&mut key, to_ascii_lower(kc[j]));
                }
                j = j + 1;
                assert(key@ =~= alternate_case(kc@.subrange(0, j as int)));
            }
            assert(kc@.subrange(0, j as int) =~= kc@);
            let value: String = self.headers[i].1.clone();
            header_insert(&mut new_headers, key, value);
            i = i + 1;
        }
        assert(p.subrange(0, i as int) =~= p);
        self.headers = new_headers;
    }
}

} // verus!
