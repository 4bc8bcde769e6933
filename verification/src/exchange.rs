//! The decisions of an HTTP/2 or HTTP/3 exchange: which headers a request
//! carries, the size limits on a response's header block and body, and the
//! response built from what the connection delivered. The caller drives the
//! connection.
use vstd::prelude::*;
use crate::client_error::HttpClientError;
use crate::header_map::{header_insert, keys_unique, map_of, pairs_of};
use crate::request::HttpRequest;
use crate::response::HttpResponse;
use crate::text::{decimal, push_char, push_decimal, str_eq};
use crate::unicode::{lowercase, to_lowercase};

verus! {

broadcast use vstd::string::group_string_axioms;

/// Most bytes (names and values) a response header block may take.
pub const MAX_HEADER_BLOCK_SIZE: usize = 65536;

/// Most bytes a response body may take.
pub const MAX_BODY_SIZE: usize = 104857600;

/// The headers of a request that go on the wire, in table order: all but
/// those whose lower-cased name is `host`.
pub open spec fn without_host(p: Seq<(Seq<char>, Seq<char>)>) -> Seq<(Seq<char>, Seq<char>)>
    decreases p.len(),
{
    if p.len() == 0 {
        Seq::empty()
    } else if lowercase(p.last().0) == "host"@ {
        without_host(p.drop_last())
    } else {
        without_host(p.drop_last()).push(p.last())
    }
}

/// The header list of a request: `user-agent` first, then the request's
/// headers other than `host`.
pub fn request_header_list(request: &HttpRequest, user_agent: &str) -> (r: Vec<(String, String)>)
    ensures
        pairs_of(r@) == seq![("user-agent"@, user_agent@)] + without_host(pairs_of(request.headers@)),
{
    let ghost p = pairs_of(request.headers@);
    let mut out: Vec<(String, String)> = Vec::new();
    out.push((String::from_str("user-agent"), String::from_str(user_agent)));
    let ghost head = pairs_of(out@);
    assert(head =~= seq![("user-agent"@, user_agent@)]);
    let mut i: usize = 0;
    while i < request.headers.len()
        invariant
            p == pairs_of(request.headers@),
            i <= p.len(),
            head == seq![("user-agent"@, user_agent@)],
            pairs_of(out@) == head + without_host(p.take(i as int)),
        decreases p.len() - i,
    {
        assert(p.take(i + 1).drop_last() =~= p.take(i as int));
        let name: String = to_lowercase(request.headers[i].0.as_str());
        if !str_eq(name.as_str(), "host") {
            let ghost before = out@;
            out.push((request.headers[i].0.clone(), request.headers[i].1.clone()));
            assert(pairs_of(out@) =~= pairs_of(before).push(p[i as int]));
        }
        i = i + 1;
        assert(pairs_of(out@) =~= head + without_host(p.take(i as int)));
    }
    assert(p.take(i as int) =~= p);
    out
}

/// Total size of a header block: name and value lengths of each header.
pub open spec fn block_size(sizes: Seq<(usize, usize)>) -> nat
    decreases sizes.len(),
{
    if sizes.len() == 0 {
        0
    } else {
        block_size(sizes.drop_last()) + sizes.last().0 as nat + sizes.last().1 as nat
    }
}

/// The block of a prefix is no larger.
pub proof fn lemma_block_size_prefix(s: Seq<(usize, usize)>, k: int)
    requires
        0 <= k <= s.len(),
    ensures
        block_size(s.take(k)) <= block_size(s),
    decreases s.len() - k,
{
    if k < s.len() {
        lemma_block_size_prefix(s, k + 1);
        assert(s.take(k + 1).drop_last() =~= s.take(k));
    } else {
        assert(s.take(k) =~= s);
    }
}

/// Refuses a response header block (given by the name and value length of
/// each header) above [`MAX_HEADER_BLOCK_SIZE`] bytes; `version` names the
/// protocol in the message.
pub fn check_header_block(version: &str, sizes: &[(usize, usize)]) -> (r: Result<(), HttpClientError>)
    requires
        block_size(sizes@) <= usize::MAX,
    ensures
        r is Ok <==> block_size(sizes@) <= MAX_HEADER_BLOCK_SIZE,
        r matches Err(e) ==> (e matches HttpClientError::InvalidResponse(m) && m@ == version@
            + " responseheadertoo large (>"@ + decimal(MAX_HEADER_BLOCK_SIZE as nat) + " bytes)"@),
{
    let mut total: usize = 0;
    let mut i: usize = 0;
    while i < sizes.len()
        invariant
            i <= sizes@.len(),
            block_size(sizes@) <= usize::MAX,
            total == block_size(sizes@.take(i as int)),
        decreases sizes@.len() - i,
    {
        assert(sizes@.take(i + 1).drop_last() =~= sizes@.take(i as int));
        proof { lemma_block_size_prefix(sizes@, i + 1); }
        total = total + sizes[i].0 + sizes[i].1;
        i = i + 1;
    }
    assert(sizes@.take(i as int) =~= sizes@);
    if total > MAX_HEADER_BLOCK_SIZE {
        let mut m: String = String::from_str(version);
        m.append(" responseheadertoo large (>");
        push_decimal(&mut m, MAX_HEADER_BLOCK_SIZE as u64);
        m.append(" bytes)");
        return Err(HttpClientError::InvalidResponse(m));
    }
    Ok(())
}

/// A response body received in chunks, refused once it would exceed
/// [`MAX_BODY_SIZE`] bytes.
pub struct BodyCollector {
    body: Vec<u8>,
}

impl BodyCollector {
    /// The bytes received so far.
    pub closed spec fn bytes(&self) -> Seq<u8> {
        self.body@
    }

    /// Nothing received yet.
    pub fn new() -> (r: Self)
        ensures
            r.bytes() == Seq::<u8>::empty(),
    {
        BodyCollector { body: Vec::new() }
    }

    /// Appends a chunk, unless the body would exceed the limit; `version`
    /// names the protocol in the message.
    pub fn push(&mut self, version: &str, chunk: &[u8]) -> (r: Result<(), HttpClientError>)
        ensures
            r is Ok <==> old(self).bytes().len() + chunk@.len() <= MAX_BODY_SIZE,
            r is Ok ==> final(self).bytes() == old(self).bytes() + chunk@,
            r is Err ==> final(self).bytes() == old(self).bytes(),
            r matches Err(e) ==> (e matches HttpClientError::InvalidResponse(m) && m@ == version@
                + " responsebody too large (>"@ + decimal(MAX_BODY_SIZE as nat) + " bytes)"@),
    {
        if self.body.len().saturating_add(chunk.len()) > MAX_BODY_SIZE {
            let mut m: String = String::from_str(version);
            m.append(" responsebody too large (>");
            push_decimal(&mut m, MAX_BODY_SIZE as u64);
            m.append(" bytes)");
            return Err(HttpClientError::InvalidResponse(m));
        }
        let mut i: usize = 0;
        while i < chunk.len()
            invariant
                i <= chunk@.len(),
                self.body@ == old(self).body@ + chunk@.take(i as int),
            decreases chunk@.len() - i,
        {
            self.body.push(chunk[i]);
            i = i + 1;
            assert(self.body@ =~= old(self).body@ + chunk@.take(i as int));
        }
        assert(chunk@.take(i as int) =~= chunk@);
        Ok(())
    }

    /// The body received.
    pub fn into_body(self) -> (r: Vec<u8>)
        ensures
            r@ == self.bytes(),
    {
        self.body
    }
}

/// Whether a header value byte is visible ASCII or a tab, the values that
/// are kept as text.
pub open spec fn visible_byte(b: u8) -> bool {
    (32 <= b && b < 127) || b == 9
}

/// Whether every byte of a header value is kept as text.
pub open spec fn visible_value(v: Seq<u8>) -> bool {
    forall|i: int| 0 <= i < v.len() ==> visible_byte(#[trigger] v[i])
}

/// The text of an ASCII header value.
pub open spec fn ascii_text(v: Seq<u8>) -> Seq<char> {
    Seq::new(v.len(), |i: int| v[i] as char)
}

/// The text a header value is kept as: itself when every byte is visible
/// ASCII or a tab, otherwise empty.
pub open spec fn kept_value(v: Seq<u8>) -> Seq<char> {
    if visible_value(v) {
        ascii_text(v)
    } else {
        Seq::empty()
    }
}

/// The header map of a response: names in lower case, values as text (an
/// empty one where the value has other bytes); a later header replaces an
/// earlier one of the same name.
pub open spec fn response_header_map(h: Seq<(Seq<char>, Seq<u8>)>) -> Map<Seq<char>, Seq<char>>
    decreases h.len(),
{
    if h.len() == 0 {
        Map::empty()
    } else {
        response_header_map(h.drop_last()).insert(lowercase(h.last().0), kept_value(h.last().1))
    }
}

/// The text of a header value when it is visible ASCII.
fn value_text(v: &Vec<u8>) -> (r: Option<String>)
    ensures
        r is Some <==> visible_value(v@),
        r matches Some(s) ==> s@ == ascii_text(v@),
{
    let mut s: String = String::new();
    let mut i: usize = 0;
    while i < v.len()
        invariant
            i <= v@.len(),
            forall|k: int| 0 <= k < i ==> visible_byte(#[trigger] v@[k]),
            s@ == ascii_text(v@.take(i as int)),
        decreases v@.len() - i,
    {
        let b: u8 = v[i];
        if !((32 <= b && b < 127) || b == 9) {
            assert(!visible_byte(v@[i as int]));
            return None;
        }
        push_char(&mut s, b as char);
        i = i + 1;
        assert(s@ =~= ascii_text(v@.take(i as int)));
    }
    assert(v@.take(i as int) =~= v@);
    Some(s)
}

/// The response of an HTTP/2 or HTTP/3 exchange from its status, status
/// text, header list (names with raw values), body, protocol name and
/// elapsed time.
pub fn exchange_response(
    status_code: u16,
    status_text: String,
    headers: &Vec<(String, Vec<u8>)>,
    body: Vec<u8>,
    http_version: &str,
    elapsed_ms: u64,
) -> (r: HttpResponse)
    ensures
        r.wf(),
        r.status_code == status_code,
        r.status_text == status_text,
        r.header_map() == response_header_map(Seq::new(headers@.len(), |i: int| (headers@[i].0@, headers@[i].1@))),
        r.body == body,
        r.http_version@ == http_version@,
        r.response_time_ms == elapsed_ms,
{
    let ghost h = Seq::new(headers@.len(), |i: int| (headers@[i].0@, headers@[i].1@));
    let mut table: Vec<(String, String)> = Vec::new();
    let mut i: usize = 0;
    assert(map_of(pairs_of(table@)) =~= response_header_map(h.take(0)));
    while i < headers.len()
        invariant
            h == Seq::new(headers@.len(), |k: int| (headers@[k].0@, headers@[k].1@)),
            i <= headers@.len(),
            keys_unique(pairs_of(table@)),
            map_of(pairs_of(table@)) == response_header_map(h.take(i as int)),
        decreases headers@.len() - i,
    {
        assert(h.take(i + 1).drop_last() =~= h.take(i as int));
        assert(h.take(i + 1).last() == h[i as int]);
        let v: String = match value_text(&headers[i].1) {
            Some(v) => v,
            None => String::new(),
        };
        let name: String = to_lowercase(headers[i].0.as_str());
        header_insert(&mut table, name, v);
        i = i + 1;
    }
    assert(h.take(i as int) =~= h);
    HttpResponse {
        status_code,
        status_text,
        headers: table,
        body,
        http_version: String::from_str(http_version),
        response_time_ms: elapsed_ms,
    }
}

} // verus!
