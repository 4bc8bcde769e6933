use fingerprint::cookie::{Cookie, CookieStore, SameSite};

#[test]
fn test_cookie_creation() {
    let cookie = Cookie::new(
        "session".to_string(),
        "abc123".to_string(),
        "example.com".to_string(),
    );
    assert_eq!(cookie.name, "session");
    assert_eq!(cookie.value, "abc123");
    assert_eq!(cookie.domain, "example.com");
}

#[test]
fn test_cookie_to_header() {
    let cookie = Cookie::new(
        "session".to_string(),
        "abc123".to_string(),
        "example.com".to_string(),
    );
    assert_eq!(cookie.to_header_value(), "session=abc123");
}

#[test]
fn test_parse_set_cookie() {
    let header = "session=abc123; Path=/; HttpOnly";
    let cookie = Cookie::parse_set_cookie(header, "example.com".to_string()).unwrap();
    assert_eq!(cookie.name, "session");
    assert_eq!(cookie.value, "abc123");
    assert_eq!(cookie.path, "/");
    assert!(cookie.http_only);
}

#[test]
fn test_cookie_store() {
    let mut store = CookieStore::new();
    let cookie = Cookie::new(
        "session".to_string(),
        "abc123".to_string(),
        "example.com".to_string(),
    );
    store.add_cookie(cookie);

    let cookies = store.get_cookies_for_domain("example.com");
    assert_eq!(cookies.len(), 1);
    assert_eq!(cookies[0].name, "session");
}

#[test]
fn test_generate_cookie_header() {
    let mut store = CookieStore::new();
    store.add_cookie(Cookie::new(
        "session".to_string(),
        "abc123".to_string(),
        "example.com".to_string(),
    ));
    store.add_cookie(Cookie::new(
        "token".to_string(),
        "xyz789".to_string(),
        "example.com".to_string(),
    ));

    let header = store
        .generate_cookie_header("example.com", "/", true)
        .unwrap();
    assert!(header.contains("session=abc123"));
    assert!(header.contains("token=xyz789"));
}

#[test]
fn test_parse_set_cookie_attributes() {
    let c = Cookie::parse_set_cookie_at(
        "id=7; domain=.Example.com; path=/api; Max-Age=60; secure; SameSite=Lax",
        "example.com".to_string(),
        1_000_000_000,
    )
    .unwrap();
    assert_eq!(c.name, "id");
    assert_eq!(c.value, "7");
    assert_eq!(c.domain, ".Example.com");
    assert_eq!(c.path, "/api");
    assert_eq!(c.max_age, Some(60));
    assert!(c.secure);
    assert!(!c.http_only);
    assert_eq!(c.same_site, Some(SameSite::Lax));
    assert_eq!(c.expires, Some(61_000_000_000));
}

#[test]
fn test_parse_set_cookie_rejects_missing_equals() {
    assert!(Cookie::parse_set_cookie_at("novalue", "a.com".to_string(), 0).is_none());
}

#[test]
fn test_expiry_and_cleanup() {
    let mut store = CookieStore::new();
    let mut c = Cookie::new("a".to_string(), "1".to_string(), "x.com".to_string());
    c.expires = Some(100);
    store.add_cookie(c);
    store.add_cookie(Cookie::new("b".to_string(), "2".to_string(), "x.com".to_string()));
    assert_eq!(store.count(), 2);
    assert_eq!(store.get_cookies_for_domain_at("x.com", 50).len(), 2);
    assert_eq!(store.get_cookies_for_domain_at("x.com", 200).len(), 1);
    store.cleanup_expired_at(200);
    assert_eq!(store.count(), 1);
}

#[test]
fn test_add_cookie_replaces_same_name_and_clear() {
    let mut store = CookieStore::new();
    store.add_cookie(Cookie::new("a".to_string(), "1".to_string(), "x.com".to_string()));
    store.add_cookie(Cookie::new("a".to_string(), "2".to_string(), "x.com".to_string()));
    let got = store.get_cookies_for_domain("x.com");
    assert_eq!(got.len(), 1);
    assert_eq!(got[0].value, "2");
    store.add_cookie(Cookie::new("c".to_string(), "3".to_string(), "y.com".to_string()));
    store.clear_domain("x.com");
    assert_eq!(store.count(), 1);
    store.clear_all();
    assert_eq!(store.count(), 0);
}

#[test]
fn test_cookie_header_filters_secure_and_path() {
    let mut store = CookieStore::new();
    let mut s = Cookie::new("s".to_string(), "1".to_string(), "x.com".to_string());
    s.secure = true;
    store.add_cookie(s);
    let mut p = Cookie::new("p".to_string(), "2".to_string(), "x.com".to_string());
    p.path = "/api".to_string();
    store.add_cookie(p);
    assert_eq!(store.generate_cookie_header("x.com", "/", false), None);
    assert_eq!(store.generate_cookie_header("x.com", "/", true), Some("s=1".to_string()));
    assert_eq!(
        store.generate_cookie_header("x.com", "/api/v1", true),
        Some("s=1; p=2".to_string())
    );
}

#[test]
fn test_add_from_response() {
    let mut store = CookieStore::new();
    store.add_from_response("k=v; Path=/", "site.org".to_string());
    let got = store.get_cookies_for_domain("site.org");
    assert_eq!(got.len(), 1);
    assert_eq!(got[0].value, "v");
}

#[test]
fn test_count_after_add_same_pair_and_new_pair() {
    let mut store = CookieStore::new();
    store.add_cookie(Cookie::new("a".to_string(), "1".to_string(), "x.com".to_string()));
    store.add_cookie(Cookie::new("b".to_string(), "1".to_string(), "x.com".to_string()));
    assert_eq!(store.count(), 2);
    // same domain and name: replaced in place, count unchanged
    store.add_cookie(Cookie::new("a".to_string(), "9".to_string(), "x.com".to_string()));
    assert_eq!(store.count(), 2);
    let got = store.get_cookies_for_domain_at("x.com", 0);
    assert_eq!(got[0].name, "a");
    assert_eq!(got[0].value, "9");
    assert_eq!(got[1].name, "b");
    // same name under another domain: a new pair, one more
    store.add_cookie(Cookie::new("a".to_string(), "1".to_string(), "y.com".to_string()));
    assert_eq!(store.count(), 3);
}
