use fingerprint::client_error::HttpClientError;
use fingerprint::cookie::CookieStore;
use fingerprint::redirects::{RedirectChain, RedirectStep};
use fingerprint::request::{HttpMethod, HttpRequest};
use fingerprint::response::HttpResponse;

const NOW: u128 = 1_700_000_000_000_000_000;

fn response(status: u16, headers: &[(&str, &str)]) -> HttpResponse {
    let mut r = HttpResponse::new(status);
    r.headers = headers.iter().map(|(k, v)| (k.to_string(), v.to_string())).collect();
    r
}

fn header<'a>(request: &'a HttpRequest, name: &str) -> Option<&'a str> {
    request.headers.iter().find(|(k, _)| k == name).map(|(_, v)| v.as_str())
}

#[test]
fn test_chain_follows_redirect_with_cookie() {
    let request = HttpRequest::new(HttpMethod::Post, "http://example.com/a/form").with_body(b"x=1".to_vec());
    let mut chain = RedirectChain::new(request, 5, Some(CookieStore::new()));

    let (scheme, host, port, path) = chain.next_target(0).unwrap();
    assert_eq!((scheme.as_str(), host.as_str(), port, path.as_str()), ("http", "example.com", 80, "/a/form"));

    let step = chain
        .on_response(response(302, &[("location", "next"), ("set-cookie", "sid=42; Path=/")]), NOW)
        .unwrap();
    assert!(matches!(step, RedirectStep::Follow));
    assert_eq!(chain.redirect_count, 1);
    assert_eq!(chain.current.url, "http://example.com:80/a/next");
    assert_eq!(chain.current.method, HttpMethod::Get);
    assert!(chain.current.body.is_none());
    assert_eq!(header(&chain.current, "Referer"), Some("http://example.com/a/form"));
    assert_eq!(header(&chain.current, "Cookie"), Some("sid=42"));
    assert_eq!(chain.cookie_store.as_ref().unwrap().count(), 1);

    let (_, _, _, path) = chain.next_target(1_000).unwrap();
    assert_eq!(path, "/a/next");
    match chain.on_response(response(200, &[("content-type", "text/plain")]), NOW).unwrap() {
        RedirectStep::Done(r) => assert_eq!(r.status_code, 200),
        RedirectStep::Follow => panic!("a 200 ends the chain"),
    }
    assert_eq!(chain.visited, vec!["http://example.com/a/form".to_string(), "http://example.com:80/a/next".to_string()]);
}

#[test]
fn test_chain_keeps_method_on_307() {
    let request = HttpRequest::new(HttpMethod::Put, "https://a.com/x").with_body(b"data".to_vec());
    let mut chain = RedirectChain::new(request, 3, None);
    chain.next_target(0).unwrap();
    let step = chain.on_response(response(307, &[("location", "https://b.com/y")]), NOW).unwrap();
    assert!(matches!(step, RedirectStep::Follow));
    assert_eq!(chain.current.method, HttpMethod::Put);
    assert_eq!(chain.current.body, Some(b"data".to_vec()));
    assert_eq!(chain.current.url, "https://b.com/y");
    assert_eq!(header(&chain.current, "Cookie"), None);
}

#[test]
fn test_chain_redirect_without_location_ends() {
    let request = HttpRequest::new(HttpMethod::Get, "http://a.com/");
    let mut chain = RedirectChain::new(request, 3, None);
    chain.next_target(0).unwrap();
    match chain.on_response(response(301, &[]), NOW).unwrap() {
        RedirectStep::Done(r) => assert_eq!(r.status_code, 301),
        RedirectStep::Follow => panic!("no location, no redirect"),
    }
    assert_eq!(chain.redirect_count, 0);
}

#[test]
fn test_chain_detects_loop() {
    let request = HttpRequest::new(HttpMethod::Get, "http://a.com/");
    let mut chain = RedirectChain::new(request, 10, None);
    chain.next_target(0).unwrap();
    chain.on_response(response(302, &[("location", "http://a.com/")]), NOW).unwrap();
    match chain.next_target(0) {
        Err(HttpClientError::InvalidResponse(m)) => assert_eq!(m, "Detect redirect loop: http://a.com/"),
        other => panic!("expected a loop error, got {:?}", other.map(|_| ())),
    }
}

#[test]
fn test_chain_limits() {
    let mut none_allowed = RedirectChain::new(HttpRequest::new(HttpMethod::Get, "http://a.com/"), 0, None);
    match none_allowed.next_target(0) {
        Err(HttpClientError::InvalidResponse(m)) => assert_eq!(m, "Redirect count exceed limit: 0"),
        other => panic!("expected the limit error, got {:?}", other.map(|_| ())),
    }

    let mut late = RedirectChain::new(HttpRequest::new(HttpMethod::Get, "http://a.com/"), 5, None);
    assert!(matches!(late.next_target(300_000_000_001), Err(HttpClientError::Timeout)));
    assert!(late.visited.is_empty());
}

#[test]
fn test_chain_invalid_target() {
    let mut chain = RedirectChain::new(HttpRequest::new(HttpMethod::Get, "http://a.com/"), 5, None);
    chain.next_target(0).unwrap();
    match chain.on_response(response(302, &[("location", "http://b.com:99999/")]), NOW) {
        Err(HttpClientError::InvalidUrl(m)) => assert_eq!(m, "Invalid port"),
        _ => panic!("expected an invalid URL"),
    }
    assert_eq!(chain.redirect_count, 0);
}

#[test]
fn test_chain_sends_at_most_max_requests() {
    let mut chain = RedirectChain::new(HttpRequest::new(HttpMethod::Get, "http://a.com/0"), 2, None);
    let mut sent = 0;
    let err = loop {
        match chain.next_target(0) {
            Ok(_) => sent += 1,
            Err(e) => break e,
        }
        let next = format!("/{}", sent);
        chain.on_response(response(302, &[("location", next.as_str())]), NOW).unwrap();
    };
    assert_eq!(sent, 2);
    assert_eq!(chain.visited.len(), 2);
    match err {
        HttpClientError::InvalidResponse(m) => assert_eq!(m, "Redirect count exceed limit: 2"),
        _ => panic!("expected the limit error"),
    }
}
