use fingerprint::client::{transport_plan, HttpClientConfig, Transport, DEFAULT_MAX_REDIRECTS};
use fingerprint::profiles::chrome_133;

#[test]
fn test_client_config_defaults() {
    let config = HttpClientConfig::default();
    assert_eq!(config.user_agent, "Mozilla/5.0");
    assert_eq!(config.connect_timeout.as_secs(), 30);
    assert_eq!(config.read_timeout.as_secs(), 30);
    assert_eq!(config.write_timeout.as_secs(), 30);
    assert_eq!(config.max_redirects, DEFAULT_MAX_REDIRECTS);
    assert_eq!(config.max_redirects, 10);
    assert!(config.verify_tls);
    assert!(config.prefer_http2);
    assert!(!config.prefer_http3);
    assert!(config.cookie_store.is_none());
    assert!(config.profile.is_none());

    let with = HttpClientConfig::with_profile(chrome_133(), "UA/1".to_string());
    assert_eq!(with.user_agent, "UA/1");
    assert_eq!(with.profile.as_ref().unwrap().id(), "chrome_133");
    assert_eq!(with.max_redirects, 10);
}

#[test]
fn test_transport_plans() {
    assert_eq!(transport_plan(false, false, true, true), vec![Transport::Http1]);
    assert_eq!(transport_plan(false, true, true, true), vec![Transport::Http1]);
    assert_eq!(
        transport_plan(true, false, true, true),
        vec![Transport::Http3, Transport::Http2, Transport::Http1Tls]
    );
    assert_eq!(transport_plan(true, false, true, false), vec![Transport::Http2, Transport::Http1Tls]);
    assert_eq!(transport_plan(true, false, false, false), vec![Transport::Http1Tls]);
    assert_eq!(transport_plan(true, true, true, true), vec![Transport::Http3]);
    assert_eq!(transport_plan(true, true, true, false), vec![Transport::Http2]);
    assert_eq!(transport_plan(true, true, false, false), vec![Transport::Http1Tls]);

    let config = HttpClientConfig::default();
    assert_eq!(config.transports("https", false), vec![Transport::Http2, Transport::Http1Tls]);
    assert_eq!(config.transports("http", false), vec![Transport::Http1]);
}
