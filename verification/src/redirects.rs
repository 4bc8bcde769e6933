//! Following redirects as a state machine: the caller asks where to send the
//! current request, performs the exchange, and hands the response back; the
//! chain decides whether it ends there or which request comes next.
use vstd::prelude::*;
use crate::client_error::HttpClientError;
use crate::cookie::{cookie_header, parse_cookie, table_after_add, Cookie, CookieModel, CookieStore, MAX_NOW};
use crate::header_map::pairs_of;
use crate::request::{with_cookie_header, HttpMethod, HttpRequest};
use crate::response::HttpResponse;
use crate::text::{decimal, str_eq};
use crate::url::{
    check_redirect, parse_url, redirect_location, redirect_method_for, redirect_request, redirect_target,
    redirect_url, url_parts, without_cookie, REDIRECT_TIME_LIMIT_NANOS,
};

verus! {

broadcast use vstd::string::group_string_axioms;

/// The texts of a list of strings.
pub open spec fn texts(v: Seq<String>) -> Seq<Seq<char>> {
    Seq::new(v.len(), |i: int| v[i]@)
}

/// Whether the chain may send a request to `url`: within the time limit,
/// under the redirect limit, and to a URL not visited before.
pub open spec fn may_continue(elapsed_nanos: u128, count: usize, max: usize, visited: Seq<Seq<char>>, url: Seq<char>) -> bool {
    &&& elapsed_nanos <= REDIRECT_TIME_LIMIT_NANOS
    &&& count < max
    &&& !visited.contains(url)
}

/// The error with which the chain stops before sending to `url`.
pub open spec fn stop_error(
    e: HttpClientError,
    elapsed_nanos: u128,
    max: usize,
    url: Seq<char>,
) -> bool {
    if elapsed_nanos > REDIRECT_TIME_LIMIT_NANOS {
        e is Timeout
    } else {
        e matches HttpClientError::InvalidResponse(m) && (m@ == "Redirect count exceed limit: "@ + decimal(max as nat)
            || m@ == "Detect redirect loop: "@ + url)
    }
}

/// Text of an optional string.
pub open spec fn opt_text(o: Option<String>) -> Option<Seq<char>> {
    match o {
        Some(s) => Some(s@),
        None => None,
    }
}

/// The cookie table after a redirect response to `host` with this
/// `Set-Cookie` value at `now`.
pub open spec fn table_after_response(
    t: Seq<(Seq<char>, Seq<CookieModel>)>,
    set_cookie: Option<Seq<char>>,
    host: Seq<char>,
    now: u128,
) -> Seq<(Seq<char>, Seq<CookieModel>)> {
    match set_cookie {
        Some(h) => match parse_cookie(h, host, now) {
            Some(c) => table_after_add(t, c),
            None => t,
        },
        None => t,
    }
}

/// A request on its way through redirects.
pub struct RedirectChain {
    /// URLs requested so far, in order.
    pub visited: Vec<String>,
    /// The request to send next (or the one last sent).
    pub current: HttpRequest,
    /// Redirects followed so far.
    pub redirect_count: usize,
    /// Most redirects to follow.
    pub max_redirects: usize,
    /// Cookies kept across the redirects, if the client keeps cookies.
    pub cookie_store: Option<CookieStore>,
    /// Scheme, host, port and path of the request last sent.
    pub sent_to: Option<(String, String, u16, String)>,
}

/// What follows a response.
pub enum RedirectStep {
    /// The chain ends with this response.
    Done(HttpResponse),
    /// The chain goes on with `current`, which is the next request.
    Follow,
}

impl RedirectChain {
    /// The chain's invariant: the request has distinct header names, the
    /// cookie store is well formed, a request is sent only under the
    /// redirect limit, no URL was requested twice, and at most one request
    /// more than the redirects followed was sent (that one to the current
    /// URL), and no more requests than `max_redirects`.
    pub open spec fn wf(&self) -> bool {
        &&& self.current.wf()
        &&& (self.cookie_store matches Some(s) ==> s.wf())
        &&& (self.sent_to is Some ==> self.redirect_count < self.max_redirects)
        &&& self.redirect_count <= self.max_redirects
        &&& texts(self.visited@).no_duplicates()
        &&& self.visited@.len() <= self.redirect_count + 1
        &&& self.visited@.len() <= self.max_redirects
        &&& (self.visited@.len() == self.redirect_count + 1 ==> texts(self.visited@).contains(self.current.url@))
    }

    /// A chain that starts with `request`.
    pub fn new(request: HttpRequest, max_redirects: usize, cookie_store: Option<CookieStore>) -> (r: Self)
        requires
            request.wf(),
            cookie_store matches Some(s) ==> s.wf(),
        ensures
            r.wf(),
            r.visited@.len() == 0,
            r.current == request,
            r.redirect_count == 0,
            r.max_redirects == max_redirects,
            r.cookie_store == cookie_store,
            r.sent_to is None,
    {
        RedirectChain { visited: Vec::new(), current: request, redirect_count: 0, max_redirects, cookie_store, sent_to: None }
    }

    /// Where to send the current request, `elapsed_nanos` after the first
    /// one was started: the chain stops with [`stop_error`] after the time
    /// limit, at the redirect limit, or on a URL already visited; otherwise
    /// it records the URL and splits it as [`url_parts`] states.
    pub fn next_target(&mut self, elapsed_nanos: u128) -> (r: Result<(String, String, u16, String), HttpClientError>)
        requires
            old(self).wf(),
        ensures
            final(self).wf(),
            final(self).current == old(self).current,
            final(self).redirect_count == old(self).redirect_count,
            final(self).max_redirects == old(self).max_redirects,
            final(self).cookie_store == old(self).cookie_store,
            !may_continue(elapsed_nanos, old(self).redirect_count, old(self).max_redirects, texts(old(self).visited@), old(self).current.url@) ==> {
                &&& (r matches Err(e) && stop_error(e, elapsed_nanos, old(self).max_redirects, old(self).current.url@))
                &&& texts(final(self).visited@) == texts(old(self).visited@)
                &&& final(self).sent_to == old(self).sent_to
            },
            may_continue(elapsed_nanos, old(self).redirect_count, old(self).max_redirects, texts(old(self).visited@), old(self).current.url@) ==> {
                &&& texts(final(self).visited@) == texts(old(self).visited@).push(old(self).current.url@)
                &&& match url_parts(old(self).current.url@) {
                    Ok((s, h, p, pa)) => (r matches Ok((rs, rh, rp, rpa)) && rs@ == s && rh@ == h && rp == p && rpa@ == pa)
                        && (final(self).sent_to matches Some((ts, th, tp, tpa)) && ts@ == s && th@ == h && tp == p
                        && tpa@ == pa),
                    Err(m) => (r matches Err(HttpClientError::InvalidUrl(e)) && e@ == m) && final(self).sent_to == old(self).sent_to,
                }
            },
    {
        let checked = check_redirect(elapsed_nanos, self.redirect_count, self.max_redirects, &self.visited, self.current.url.as_str());
        proof {
            if texts(self.visited@).contains(self.current.url@) {
                let i = choose|i: int| 0 <= i < texts(self.visited@).len() && texts(self.visited@)[i] == self.current.url@;
                assert(self.visited@[i]@ == self.current.url@);
            }
            if !texts(self.visited@).contains(self.current.url@) {
                assert forall|i: int| 0 <= i < self.visited@.len() implies #[trigger] self.visited@[i]@ != self.current.url@ by {
                    assert(texts(self.visited@)[i] == self.visited@[i]@);
                }
            }
        }
        match checked {
            Err(e) => {
                return Err(e);
            },
            Ok(()) => {},
        }
        let ghost before = texts(self.visited@);
        self.visited.push(self.current.url.clone());
        assert(texts(self.visited@) =~= before.push(self.current.url@));
        proof {
            let t = texts(self.visited@);
            assert(!before.contains(self.current.url@));
            assert forall|i: int, j: int| 0 <= i < t.len() && 0 <= j < t.len() && i != j implies t[i] != t[j] by {
                if i < before.len() && j < before.len() {
                    assert(t[i] == before[i] && t[j] == before[j]);
                } else if i == before.len() {
                    assert(t[j] == before[j]);
                } else {
                    assert(t[i] == before[i]);
                }
            }
            assert(t[before.len() as int] == self.current.url@);
        }
        match parse_url(self.current.url.as_str()) {
            Ok((s, h, p, pa)) => {
                self.sent_to = Some((s.clone(), h.clone(), p, pa.clone()));
                Ok((s, h, p, pa))
            },
            Err(e) => Err(e),
        }
    }

    /// Takes the response to the request last sent, at `now` nanoseconds
    /// since the Unix epoch. Without a redirect (a 3xx status with a
    /// `location` header) the chain ends with the response. Otherwise it
    /// resolves the location against the URL sent to, keeps the cookie the
    /// response sets (under the host sent to), and makes the next request by
    /// [`redirect_request`] with the store's `Cookie` header for the new URL;
    /// a target that is no valid URL ends the chain with `InvalidUrl`.
    pub fn on_response(&mut self, response: HttpResponse, now: u128) -> (r: Result<RedirectStep, HttpClientError>)
        requires
            old(self).wf(),
            old(self).sent_to is Some,
            response.wf(),
            now <= MAX_NOW,
        ensures
            final(self).wf(),
            final(self).max_redirects == old(self).max_redirects,
            texts(final(self).visited@) == texts(old(self).visited@),
            !(300 <= response.status_code < 400 && response.header_map().dom().contains("location"@)) ==> {
                &&& (r matches Ok(RedirectStep::Done(d)) && d == response)
                &&& *final(self) == *old(self)
            },
            300 <= response.status_code < 400 && response.header_map().dom().contains("location"@) ==> {
                let (s, h, p, pa) = old(self).sent_to->0;
                let target = redirect_target(s@, h@, p, pa@, response.header_map()["location"@]);
                let set_cookie = if response.header_map().dom().contains("set-cookie"@) {
                    Some(response.header_map()["set-cookie"@])
                } else {
                    None
                };
                &&& (final(self).cookie_store is Some) == (old(self).cookie_store is Some)
                &&& (old(self).cookie_store matches Some(os) ==> final(self).cookie_store->0.table()
                    == table_after_response(os.table(), set_cookie, h@, now))
                &&& match url_parts(target) {
                    Err(m) => (r matches Err(HttpClientError::InvalidUrl(e)) && e@ == m)
                        && final(self).current == old(self).current
                        && final(self).redirect_count == old(self).redirect_count,
                    Ok((ns, nh, np, npa)) => {
                        let ch = match final(self).cookie_store {
                            Some(st) => cookie_header(st.table(), nh, npa, ns == "https"@, now),
                            None => None,
                        };
                        &&& r matches Ok(RedirectStep::Follow)
                        &&& final(self).redirect_count == old(self).redirect_count + 1
                        &&& final(self).sent_to is None
                        &&& final(self).current.method == redirect_method_for(response.status_code, old(self).current.method)
                        &&& final(self).current.url@ == target
                        &&& final(self).current.header_map() == with_cookie_header(
                            without_cookie(pairs_of(old(self).current.headers@)).insert("Referer"@, old(self).current.url@),
                            ch,
                        )
                        &&& (final(self).current.method == HttpMethod::Get ==> final(self).current.body is None)
                        &&& (final(self).current.method != HttpMethod::Get ==> match old(self).current.body {
                            Some(b) => final(self).current.body matches Some(rb) && rb@ == b@,
                            None => final(self).current.body is None,
                        })
                    },
                }
            },
    {
        let location: String = match redirect_location(&response) {
            Some(l) => l,
            None => {
                return Ok(RedirectStep::Done(response));
            },
        };
        let (scheme, host, port, path) = match &self.sent_to {
            Some(t) => (t.0.clone(), t.1.clone(), t.2, t.3.clone()),
            None => {
                return Ok(RedirectStep::Done(response));
            },
        };
        let target: String = redirect_url(scheme.as_str(), host.as_str(), port, path.as_str(), location.as_str());
        let mut store = self.cookie_store.take();
        match &mut store {
            Some(st) => {
                match response.get_header("set-cookie") {
                    Some(set_cookie) => {
                        match Cookie::parse_set_cookie_at(set_cookie.as_str(), host.clone(), now) {
                            Some(c) => {
                                st.add_cookie(c);
                            },
                            None => {},
                        }
                    },
                    None => {},
                }
            },
            None => {},
        }
        self.cookie_store = store;
        let (new_scheme, new_host, _new_port, new_path) = match parse_url(target.as_str()) {
            Ok(parts) => parts,
            Err(e) => {
                return Err(e);
            },
        };
        let header: Option<String> = match &self.cookie_store {
            Some(st) => st.generate_cookie_header_at(
                new_host.as_str(),
                new_path.as_str(),
                str_eq(new_scheme.as_str(), "https"),
                now,
            ),
            None => None,
        };
        let next: HttpRequest = redirect_request(&self.current, response.status_code, target.as_str(), header);
        self.current = next;
        self.redirect_count = self.redirect_count + 1;
        self.sent_to = None;
        Ok(RedirectStep::Follow)
    }
}

/// A chain never requests one URL twice, and sends at most
/// `max_redirects` requests (a request is sent only while fewer than
/// `max_redirects` redirects were followed).
pub proof fn lemma_chain_bounds(chain: RedirectChain)
    requires
        chain.wf(),
    ensures
        texts(chain.visited@).no_duplicates(),
        chain.visited@.len() <= chain.max_redirects,
{
}

} // verus!
