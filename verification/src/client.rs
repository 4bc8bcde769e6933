//! The HTTP client's configuration, and the order in which the client tries
//! transports for a request.
use vstd::prelude::*;
use crate::cookie::CookieStore;
use crate::duration::secs;
use crate::profiles::BrowserProfile;

verus! {

broadcast use vstd::string::group_string_axioms;

/// Seconds the client waits to connect, read or write by default.
pub const DEFAULT_TIMEOUT_SECS: u64 = 30;

/// Redirects the client follows by default.
pub const DEFAULT_MAX_REDIRECTS: usize = 10;

/// HTTP client configuration.
pub struct HttpClientConfig {
    /// User-Agent sent with each request.
    pub user_agent: String,
    /// Browser profile the client presents, if any.
    pub profile: Option<BrowserProfile>,
    /// Time allowed to connect.
    pub connect_timeout: std::time::Duration,
    /// Time allowed for each read.
    pub read_timeout: std::time::Duration,
    /// Time allowed for each write.
    pub write_timeout: std::time::Duration,
    /// Most redirects followed for one request.
    pub max_redirects: usize,
    /// Whether TLS certificates are verified.
    pub verify_tls: bool,
    /// Whether HTTP/2 is tried first for HTTPS.
    pub prefer_http2: bool,
    /// Whether HTTP/3 is tried first for HTTPS.
    pub prefer_http3: bool,
    /// Cookies kept across requests, if any.
    pub cookie_store: Option<CookieStore>,
}

/// Whether `c` holds the default settings other than the profile and the
/// User-Agent (the timeouts are 30 seconds; `Duration` is opaque here).
pub open spec fn default_settings(c: HttpClientConfig) -> bool {
    &&& c.max_redirects == DEFAULT_MAX_REDIRECTS
    &&& c.verify_tls
    &&& c.prefer_http2
    &&& !c.prefer_http3
    &&& c.cookie_store is None
}

impl Default for HttpClientConfig {
    /// User-Agent `Mozilla/5.0`, no profile, 30-second timeouts, ten
    /// redirects, certificates verified, HTTP/2 preferred, HTTP/3 off, no
    /// cookie store.
    fn default() -> (r: Self)
        ensures
            r.user_agent@ == "Mozilla/5.0"@,
            r.profile is None,
            default_settings(r),
    {
        HttpClientConfig {
            user_agent: String::from_str("Mozilla/5.0"),
            profile: None,
            connect_timeout: secs(DEFAULT_TIMEOUT_SECS),
            read_timeout: secs(DEFAULT_TIMEOUT_SECS),
            write_timeout: secs(DEFAULT_TIMEOUT_SECS),
            max_redirects: DEFAULT_MAX_REDIRECTS,
            verify_tls: true,
            prefer_http2: true,
            prefer_http3: false,
            cookie_store: None,
        }
    }
}

impl HttpClientConfig {
    /// The default configuration presenting `profile` with `user_agent`.
    pub fn with_profile(profile: BrowserProfile, user_agent: String) -> (r: Self)
        ensures
            r.user_agent == user_agent,
            r.profile == Some(profile),
            default_settings(r),
    {
        let mut config: HttpClientConfig = HttpClientConfig::default();
        config.profile = Some(profile);
        config.user_agent = user_agent;
        config
    }
}

/// A way of sending a request.
#[derive(Debug, Clone, Copy, PartialEq, Eq, Structural)]
pub enum Transport {
    /// HTTP/1.1 over TCP.
    Http1,
    /// HTTP/1.1 over TLS.
    Http1Tls,
    /// HTTP/2 over TLS.
    Http2,
    /// HTTP/3 over QUIC.
    Http3,
}

/// The transports to try for a request, in order, each tried after the one
/// before failed. HTTP goes over HTTP/1.1. HTTPS through a connection pool
/// takes the one preferred transport (HTTP/3, then HTTP/2, else HTTP/1.1
/// over TLS) with no fallback; without a pool it tries HTTP/3 and HTTP/2
/// where preferred and falls back to HTTP/1.1 over TLS.
pub open spec fn transport_order(https: bool, pooled: bool, prefer_http2: bool, prefer_http3: bool) -> Seq<Transport> {
    if !https {
        seq![Transport::Http1]
    } else if pooled {
        if prefer_http3 {
            seq![Transport::Http3]
        } else if prefer_http2 {
            seq![Transport::Http2]
        } else {
            seq![Transport::Http1Tls]
        }
    } else {
        (if prefer_http3 {
            seq![Transport::Http3]
        } else {
            Seq::<Transport>::empty()
        }) + (if prefer_http2 {
            seq![Transport::Http2]
        } else {
            Seq::<Transport>::empty()
        }) + seq![Transport::Http1Tls]
    }
}

/// The transports to try, as [`transport_order`] states.
pub fn transport_plan(https: bool, pooled: bool, prefer_http2: bool, prefer_http3: bool) -> (r: Vec<Transport>)
    ensures
        r@ == transport_order(https, pooled, prefer_http2, prefer_http3),
{
    let mut plan: Vec<Transport> = Vec::new();
    if !https {
        plan.push(Transport::Http1);
        assert(plan@ =~= seq![Transport::Http1]);
        return plan;
    }
    if pooled {
        if prefer_http3 {
            plan.push(Transport::Http3);
        } else if prefer_http2 {
            plan.push(Transport::Http2);
        } else {
            plan.push(Transport::Http1Tls);
        }
        assert(plan@ =~= transport_order(https, pooled, prefer_http2, prefer_http3));
        return plan;
    }
    if prefer_http3 {
        plan.push(Transport::Http3);
    }
    if prefer_http2 {
        plan.push(Transport::Http2);
    }
    plan.push(Transport::Http1Tls);
    assert(plan@ =~= transport_order(https, pooled, prefer_http2, prefer_http3));
    plan
}

impl HttpClientConfig {
    /// The transports this configuration tries for a URL of `scheme`.
    pub fn transports(&self, scheme: &str, pooled: bool) -> (r: Vec<Transport>)
        ensures
            r@ == transport_order(scheme@ == "https"@, pooled, self.prefer_http2, self.prefer_http3),
    {
        transport_plan(crate::text::str_eq(scheme, "https"), pooled, self.prefer_http2, self.prefer_http3)
    }
}

/// A request always ends with a transport that is not retried: every plan
/// is non-empty and its last transport is HTTP/1.1 (over TLS for HTTPS)
/// unless a pool fixes the preferred transport.
pub proof fn lemma_plan_ends_in_fallback(https: bool, pooled: bool, prefer_http2: bool, prefer_http3: bool)
    ensures
        transport_order(https, pooled, prefer_http2, prefer_http3).len() >= 1,
        https && !pooled ==> transport_order(https, pooled, prefer_http2, prefer_http3).last() == Transport::Http1Tls,
        !https ==> transport_order(https, pooled, prefer_http2, prefer_http3) == seq![Transport::Http1],
        https && pooled ==> transport_order(https, pooled, prefer_http2, prefer_http3).len() == 1,
{
    let t = transport_order(https, pooled, prefer_http2, prefer_http3);
    if https && !pooled {
        assert(t.last() == Transport::Http1Tls);
    }
}

} // verus!
