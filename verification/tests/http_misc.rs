use fingerprint::client_error::HttpClientError;
use fingerprint::exchange::{check_header_block, exchange_response, request_header_list, BodyCollector};
use fingerprint::io::{find_subsequence, parse_headers_for_length_and_chunked, ReadDecision, ResponseReader};
use fingerprint::pool::PoolManagerConfig;
use fingerprint::proxy::{http_connect_request, socks5_connect_request, ProxyConfig, ProxyType};
use fingerprint::request::{HttpMethod, HttpRequest};
use fingerprint::url::{check_redirect, parse_url, redirect_method, redirect_request, redirect_url};

#[test]
fn test_pool_config() {
    let config = PoolManagerConfig::default();
    assert_eq!(config.max_connections, 100);
    assert_eq!(config.min_idle, 10);
    assert!(config.enable_reuse);
}

#[test]
fn test_proxy_config() {
    let proxy = ProxyConfig::http("127.0.0.1".to_string(), 8080);
    assert_eq!(proxy.host, "127.0.0.1");
    assert_eq!(proxy.port, 8080);
}

#[test]
fn test_proxy_with_auth() {
    let proxy = ProxyConfig::socks5("127.0.0.1".to_string(), 1080)
        .with_auth("user".to_string(), "pass".to_string());
    assert_eq!(proxy.username, Some("user".to_string()));
    assert_eq!(proxy.password, Some("pass".to_string()));
}

#[test]
fn test_proxy_messages() {
    let proxy = ProxyConfig::http("10.0.0.1".to_string(), 3128);
    assert!(matches!(proxy.proxy_type, ProxyType::Http));
    assert_eq!(proxy.address(), "10.0.0.1:3128");
    assert_eq!(
        http_connect_request("example.com", 443),
        "CONNECT example.com:443 HTTP/1.1\r\nHost: example.com:443\r\n\r\n"
    );
    let req = socks5_connect_request("ab", 80);
    assert_eq!(req, vec![5, 1, 0, 3, 2, b'a', b'b', 0, 80]);
}

#[test]
fn test_build_http1_request() {
    let request = HttpRequest::new(HttpMethod::Get, "http://example.com/test")
        .with_user_agent("TestAgent/1.0")
        .with_header("Accept", "text/html");

    let http1_request = request.build_http1_request("example.com", "/test");

    assert!(http1_request.contains("GET /test HTTP/1.1"));
    assert!(http1_request.contains("Host: example.com"));
    assert!(http1_request.contains("User-Agent: TestAgent/1.0"));
    assert!(http1_request.contains("Accept: text/html"));
}

#[test]
fn test_post_with_body() {
    let body = b"test data";
    let request = HttpRequest::new(HttpMethod::Post, "http://example.com/api").with_body(body.to_vec());

    let http1_request = request.build_http1_request("example.com", "/api");

    assert!(http1_request.contains("POST /api HTTP/1.1"));
    assert!(http1_request.contains("Content-Length: 9"));
    assert!(http1_request.contains("test data"));
}

#[test]
fn test_request_exact_text() {
    let request = HttpRequest::new(HttpMethod::Put, "http://h/x").with_header("X-A", "1\r\n");
    assert_eq!(
        request.build_http1_request("h", "/x"),
        "PUT /x HTTP/1.1\r\nHost: h\r\nX-A: 1\r\nConnection: close\r\n\r\n"
    );
    let keep = HttpRequest::new(HttpMethod::Get, "http://h/").with_header("connection", "keep-alive");
    assert_eq!(
        keep.build_http1_request("h", "/"),
        "GET / HTTP/1.1\r\nHost: h\r\nconnection: keep-alive\r\n\r\n"
    );
}

#[test]
fn test_parse_url() {
    let (scheme, host, port, path) = parse_url("https://example.com/path").unwrap();
    assert_eq!(scheme, "https");
    assert_eq!(host, "example.com");
    assert_eq!(port, 443);
    assert_eq!(path, "/path");

    let (scheme, host, port, path) = parse_url("http://example.com:8080/api").unwrap();
    assert_eq!(scheme, "http");
    assert_eq!(host, "example.com");
    assert_eq!(port, 8080);
    assert_eq!(path, "/api");
}

#[test]
fn test_parse_url_edge_cases() {
    let (s, h, p, pa) = parse_url("  http://[2001:db8::1]:8443/a?q=1#frag ").unwrap();
    assert_eq!((s.as_str(), h.as_str(), p, pa.as_str()), ("http", "2001:db8::1", 8443, "/a?q=1"));
    let (_, h, p, pa) = parse_url("https://[::1]").unwrap();
    assert_eq!((h.as_str(), p, pa.as_str()), ("::1", 443, "/"));
    let (_, h, p, _) = parse_url("http://host:+81").unwrap();
    assert_eq!((h.as_str(), p), ("host", 81));
    match parse_url("ftp://x") {
        Err(HttpClientError::InvalidUrl(m)) => assert_eq!(m, "Missing protocol"),
        _ => panic!("expected an invalid URL"),
    }
    match parse_url("http://x:99999/") {
        Err(HttpClientError::InvalidUrl(m)) => assert_eq!(m, "Invalid port"),
        _ => panic!("expected an invalid port"),
    }
    match parse_url("http://[::1/") {
        Err(HttpClientError::InvalidUrl(m)) => assert_eq!(m, "IPv6 address format error"),
        _ => panic!("expected an IPv6 format error"),
    }
}

#[test]
fn test_redirect_url_forms() {
    assert_eq!(redirect_url("http", "a.com", 80, "/x/y", "https://b.com/z"), "https://b.com/z");
    assert_eq!(redirect_url("https", "a.com", 443, "/x/y", "//c.com/z"), "https://c.com/z");
    assert_eq!(redirect_url("http", "a.com", 8080, "/x/y", "/root"), "http://a.com:8080/root");
    assert_eq!(redirect_url("http", "a.com", 80, "/x/y", "next"), "http://a.com:80/x/next");
    assert_eq!(redirect_url("http", "a.com", 80, "/y", "next"), "http://a.com:80/next");
    assert_eq!(redirect_url("http", "a.com", 80, "/x/", "next"), "http://a.com:80/x//next");
}

#[test]
fn test_redirect_method_and_request() {
    assert_eq!(redirect_method(302, HttpMethod::Post), HttpMethod::Get);
    assert_eq!(redirect_method(307, HttpMethod::Post), HttpMethod::Post);
    let req = HttpRequest::new(HttpMethod::Post, "http://a.com/form")
        .with_header("Cookie", "old=1")
        .with_header("Accept", "*/*")
        .with_body(b"data".to_vec());
    let next = redirect_request(&req, 307, "http://a.com/next", Some("s=1".to_string()));
    assert_eq!(next.method, HttpMethod::Post);
    assert_eq!(next.url, "http://a.com/next");
    assert_eq!(next.body, Some(b"data".to_vec()));
    let get = |k: &str| next.headers.iter().find(|(n, _)| n == k).map(|(_, v)| v.clone());
    assert_eq!(get("Accept"), Some("*/*".to_string()));
    assert_eq!(get("Referer"), Some("http://a.com/form".to_string()));
    assert_eq!(get("Cookie"), Some("s=1".to_string()));
    let moved = redirect_request(&req, 303, "http://a.com/other", None);
    assert_eq!(moved.method, HttpMethod::Get);
    assert_eq!(moved.body, None);
    assert!(moved.headers.iter().all(|(n, _)| n != "Cookie"));
}

#[test]
fn test_check_redirect() {
    let visited = vec!["http://a.com/".to_string()];
    assert!(check_redirect(0, 0, 10, &visited, "http://b.com/").is_ok());
    match check_redirect(0, 10, 10, &visited, "http://b.com/") {
        Err(HttpClientError::InvalidResponse(m)) => assert_eq!(m, "Redirect count exceed limit: 10"),
        _ => panic!("expected the redirect limit"),
    }
    match check_redirect(0, 1, 10, &visited, "http://a.com/") {
        Err(HttpClientError::InvalidResponse(m)) => assert_eq!(m, "Detect redirect loop: http://a.com/"),
        _ => panic!("expected a loop"),
    }
    assert!(matches!(
        check_redirect(300_000_000_001, 0, 10, &visited, "http://b.com/"),
        Err(HttpClientError::Timeout)
    ));
}

#[test]
fn test_header_framing_and_reader() {
    assert_eq!(find_subsequence(b"ab\r\n\r\ncd", b"\r\n\r\n"), Some(2));
    assert_eq!(find_subsequence(b"abc", b"x"), None);
    let (len, chunked) = parse_headers_for_length_and_chunked(b"HTTP/1.1 200 OK\r\nContent-Length: 5\r\n");
    assert_eq!((len, chunked), (Some(5), false));
    let (len, chunked) =
        parse_headers_for_length_and_chunked(b"HTTP/1.1 200 OK\r\nTransfer-Encoding: chunked\r\n");
    assert_eq!((len, chunked), (None, true));

    let mut reader = ResponseReader::new(1024);
    assert_eq!(reader.next_decision(), ReadDecision::ReadMore);
    assert_eq!(reader.feed(b"HTTP/1.1 200 OK\r\nContent-Length: 2\r\n\r\nhi"), Ok(false));
    assert_eq!(reader.next_decision(), ReadDecision::Finish);
    assert_eq!(reader.into_bytes(), b"HTTP/1.1 200 OK\r\nContent-Length: 2\r\n\r\nhi".to_vec());

    let mut small = ResponseReader::new(4);
    assert_eq!(small.feed(b"HTTP"), Ok(false));
    assert!(matches!(small.next_decision(), ReadDecision::Fail(_)));
}

#[test]
fn test_exchange_decisions() {
    let req = HttpRequest::new(HttpMethod::Get, "https://a.com/")
        .with_header("Host", "a.com")
        .with_header("Accept", "*/*");
    let list = request_header_list(&req, "UA/1");
    assert_eq!(list, vec![("user-agent".to_string(), "UA/1".to_string()), ("Accept".to_string(), "*/*".to_string())]);

    assert!(check_header_block("HTTP/2", &[(10, 20), (5, 5)]).is_ok());
    match check_header_block("HTTP/3", &[(65536, 1)]) {
        Err(HttpClientError::InvalidResponse(m)) => assert_eq!(m, "HTTP/3 responseheadertoo large (>65536 bytes)"),
        _ => panic!("expected a header size error"),
    }

    let mut body = BodyCollector::new();
    assert!(body.push("HTTP/2", b"abc").is_ok());
    assert!(body.push("HTTP/2", b"de").is_ok());
    assert_eq!(body.into_body(), b"abcde".to_vec());
    let mut big = BodyCollector::new();
    let chunk = vec![0u8; 104857600];
    assert!(big.push("HTTP/2", &chunk).is_ok());
    match big.push("HTTP/2", b"x") {
        Err(HttpClientError::InvalidResponse(m)) => assert_eq!(m, "HTTP/2 responsebody too large (>104857600 bytes)"),
        _ => panic!("expected a body size error"),
    }

    let headers = vec![
        ("Content-Type".to_string(), b"text/plain".to_vec()),
        ("X-Bin".to_string(), vec![0xff, 0x00]),
        ("x-tab".to_string(), b"a\tb".to_vec()),
        ("x-later".to_string(), b"first".to_vec()),
        ("x-later".to_string(), vec![0x80]),
    ];
    let resp = exchange_response(200, "OK".to_string(), &headers, b"hi".to_vec(), "HTTP/2", 7);
    assert_eq!(resp.get_header("content-type"), Some(&"text/plain".to_string()));
    assert_eq!(resp.get_header("x-bin"), Some(&"".to_string()));
    assert_eq!(resp.get_header("x-later"), Some(&"".to_string()));
    assert_eq!(resp.get_header("x-tab"), Some(&"a\tb".to_string()));
    assert_eq!(resp.http_version, "HTTP/2");
    assert_eq!(resp.response_time_ms, 7);
}
