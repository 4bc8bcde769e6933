use fingerprint::quick;
use fingerprint::version_adapter::VersionAdapter;
use fingerprint::version_detector::VersionDetector;
use fingerprint::version_registry::{BrowserType, VersionRegistry};
use fingerprint::version_update::{VersionUpdateConfig, VersionUpdateManager};

const CHROME_133_UA: &str = "Mozilla/5.0 (Windows NT 10.0; Win64; x64) AppleWebKit/537.36 (KHTML, like Gecko) Chrome/133.0.0.0 Safari/537.36";

#[test]
fn test_adapter_creation() {
    let registry = VersionRegistry::new();
    assert!(registry.chrome.len() > 0);
    let adapter = VersionAdapter::new();
    assert!(adapter.get_latest_profile(BrowserType::Chrome).is_some());
}

#[test]
fn test_get_profile_exact_version() {
    let adapter = VersionAdapter::new();
    let profile = adapter.get_profile(BrowserType::Chrome, 133);
    assert!(profile.is_some());
}

#[test]
fn test_get_profile_from_ua() {
    let adapter = VersionAdapter::new();
    let profile = adapter.get_profile_from_ua(CHROME_133_UA);
    assert!(profile.is_some());
}

#[test]
fn test_get_latest_profile() {
    let adapter = VersionAdapter::new();
    let profile = adapter.get_latest_profile(BrowserType::Chrome);
    assert!(profile.is_some());
}

#[test]
fn test_supports_capability() {
    let adapter = VersionAdapter::new();
    assert!(adapter.supports_capability(BrowserType::Chrome, 133, "ech"));
}

#[test]
fn test_quick_api() {
    let profile = quick::profile_from_ua(CHROME_133_UA);
    assert!(profile.is_some());

    let profile = quick::profile(BrowserType::Chrome, 133);
    assert!(profile.is_some());

    let profile = quick::latest_profile(BrowserType::Chrome);
    assert!(profile.is_some());
}

#[test]
fn test_detect_chrome_133() {
    let info = VersionDetector::detect(CHROME_133_UA);
    assert!(info.is_some());
    let info = info.unwrap();
    assert_eq!(info.browser, BrowserType::Chrome);
    assert_eq!(info.version, 133);
}

#[test]
fn test_detect_firefox_133() {
    let ua = "Mozilla/5.0 (Windows NT 10.0; Win64; x64; rv:133.0) Gecko/20100101 Firefox/133.0";
    let info = VersionDetector::detect(ua);
    assert!(info.is_some());
    let info = info.unwrap();
    assert_eq!(info.browser, BrowserType::Firefox);
    assert_eq!(info.version, 133);
}

#[test]
fn test_detect_safari() {
    let ua = "Mozilla/5.0 (Macintosh; Intel Mac OS X 10_15_7) AppleWebKit/537.36 (KHTML, like Gecko) Version/18.0 Safari/537.36";
    let info = VersionDetector::detect(ua);
    assert!(info.is_some());
    let info = info.unwrap();
    assert_eq!(info.browser, BrowserType::Safari);
    assert_eq!(info.version, 18);
}

#[test]
fn test_detect_edge_133() {
    let ua = "Mozilla/5.0 (Windows NT 10.0; Win64; x64) AppleWebKit/537.36 (KHTML, like Gecko) Chrome/133.0.0.0 Safari/537.36 Edg/133.0.0.0";
    let info = VersionDetector::detect(ua);
    assert!(info.is_some());
    let info = info.unwrap();
    assert_eq!(info.browser, BrowserType::Edge);
    assert_eq!(info.version, 133);
}

#[test]
fn test_parse_version_range() {
    let range = VersionDetector::parse_version_range("130-135").unwrap();
    assert_eq!(range.len(), 6);
    assert_eq!(range[0], 130);
    assert_eq!(range[5], 135);

    let single = VersionDetector::parse_version_range("133").unwrap();
    assert_eq!(single.len(), 1);
    assert_eq!(single[0], 133);
}

#[test]
fn test_parse_version_range_errors() {
    assert!(VersionDetector::parse_version_range("1-2-3").is_err());
    assert!(VersionDetector::parse_version_range("x-5").is_err());
    assert!(VersionDetector::parse_version_range("5-y").is_err());
    assert!(VersionDetector::parse_version_range("abc").is_err());
    assert_eq!(VersionDetector::parse_version_range(" 7 - 8 ").unwrap(), vec![7, 8]);
}

#[test]
fn test_is_mobile() {
    assert!(VersionDetector::is_mobile(
        "Mozilla/5.0 (iPhone; CPU iPhone OS 18_0 like Mac OS X) AppleWebKit/537.36"
    ));
    assert!(!VersionDetector::is_mobile(
        "Mozilla/5.0 (Windows NT 10.0; Win64; x64) AppleWebKit/537.36"
    ));
}

#[test]
fn test_detect_unknown_agent() {
    assert!(VersionDetector::detect("curl/8.0").is_none());
}

#[test]
fn test_version_registry_creation() {
    let registry = VersionRegistry::new();
    assert!(!registry.chrome.is_empty());
    assert!(!registry.firefox.is_empty());
}

#[test]
fn test_get_version() {
    let registry = VersionRegistry::new();
    let entry = registry.get_version(BrowserType::Chrome, 133);
    assert!(entry.is_some());
    assert_eq!(entry.unwrap().profile_fn, "chrome_133");
}

#[test]
fn test_find_nearest_compatible() {
    let registry = VersionRegistry::new();
    let nearest = registry.find_nearest_compatible(BrowserType::Chrome, 199);
    assert!(nearest.is_some());
}

#[test]
fn test_find_nearest_compatible_values() {
    let registry = VersionRegistry::new();
    assert_eq!(registry.find_nearest_compatible(BrowserType::Chrome, 133), Some(133));
    assert_eq!(registry.find_nearest_compatible(BrowserType::Chrome, 999), Some(138));
    let latest = registry.get_latest(BrowserType::Chrome).unwrap().version;
    assert_eq!(registry.find_nearest_compatible(BrowserType::Chrome, 1), Some(latest));
}

#[test]
fn test_get_latest() {
    let registry = VersionRegistry::new();
    let latest = registry.get_latest(BrowserType::Chrome);
    assert!(latest.is_some());
    assert!(latest.unwrap().version >= 130);
}

#[test]
fn test_migration_map() {
    let registry = VersionRegistry::new();
    let map = registry.get_migration_map(BrowserType::Chrome);
    assert!(!map.is_empty());
    assert!(map.iter().any(|(k, _)| k == "chrome_133"));
}

fn config_140() -> VersionUpdateConfig {
    VersionUpdateConfig {
        version: 140,
        browser: "chrome".to_string(),
        release_date: "2025-07-01".to_string(),
        tls13_support: true,
        ech_support: true,
        http2_support: true,
        http3_support: true,
        psk_support: true,
        early_data_support: true,
        pq_support: true,
        fallback_version: Some(139),
    }
}

#[test]
fn test_generate_registry_code() {
    let config = config_140();
    let code = VersionUpdateManager::generate_registry_code(&config);
    assert!(code.contains("chrome_140"));
    assert!(code.contains("2025-07-01"));
}

#[test]
fn test_generate_profile_stub() {
    let stub = VersionUpdateManager::generate_profile_stub("chrome", 140, 139);
    assert!(stub.contains("chrome_140"));
    assert!(stub.contains("pub fn"));
}

#[test]
fn test_generate_complete_update() {
    let configs = vec![config_140()];
    let output = VersionUpdateManager::generate_complete_update(&configs);
    assert!(output.contains("Registry Code"));
    assert!(output.contains("Profile Function Stubs"));
    assert!(output.contains("Profile Map Entries"));
}

#[test]
fn test_version_registry_completeness() {
    let registry = VersionRegistry::new();

    assert!(registry.get_version(BrowserType::Chrome, 104).is_some());
    assert!(registry.get_version(BrowserType::Chrome, 117).is_some());
    assert!(registry.get_version(BrowserType::Chrome, 133).is_some());

    assert!(registry.get_version(BrowserType::Firefox, 102).is_some());
    assert!(registry.get_version(BrowserType::Firefox, 123).is_some());

    assert!(registry.get_version(BrowserType::Safari, 156).is_some());
    assert!(registry.get_version(BrowserType::Safari, 1850).is_some());

    assert!(registry.get_version(BrowserType::Opera, 89).is_some());
    assert!(registry.get_version(BrowserType::Opera, 90).is_some());
}

#[test]
fn test_version_adapter_loading() {
    let adapter = VersionAdapter::new();

    let chrome_104_profile = adapter.get_profile(BrowserType::Chrome, 104);
    assert!(chrome_104_profile.is_some());

    let firefox_123_profile = adapter.get_profile(BrowserType::Firefox, 123);
    assert!(firefox_123_profile.is_some());

    let safari_15_6_1_profile = adapter.get_profile(BrowserType::Safari, 1561);
    assert!(safari_15_6_1_profile.is_some());

    let opera_90_profile = adapter.get_profile(BrowserType::Opera, 90);
    assert!(opera_90_profile.is_some());
}

#[test]
fn test_registered_version_gets_its_own_profile() {
    let adapter = VersionAdapter::new();
    assert_eq!(adapter.get_profile(BrowserType::Chrome, 104), Some("chrome_104".to_string()));
    assert_eq!(adapter.get_profile(BrowserType::Firefox, 123), Some("firefox_123".to_string()));
    assert_eq!(adapter.get_profile(BrowserType::Safari, 156), Some("safari_15_6_1".to_string()));
    assert_eq!(adapter.get_profile(BrowserType::Opera, 90), Some("opera_90".to_string()));
}

#[test]
fn test_chrome_133_entry_fields() {
    let registry = VersionRegistry::new();
    assert_eq!(registry.chrome.len(), 34);
    assert!(registry.firefox.len() > 0);
    let e = registry.get_version(BrowserType::Chrome, 133).unwrap();
    assert_eq!(e.profile_fn, "chrome_133");
    assert_eq!(e.release_date, "2025-02-01");
    assert!(e.ech_support && e.http3_support && e.psk_support && e.early_data_support && e.pq_support);
    assert_eq!(e.fallback_version, Some(132));
    assert_eq!(registry.get_version(BrowserType::Chrome, 1333).unwrap().profile_fn, "chrome_133_psk_0rtt");
    let adapter = VersionAdapter::new();
    assert!(adapter.supports_capability(BrowserType::Chrome, 133, "ech"));
    assert_eq!(
        adapter.get_version_info(BrowserType::Chrome, 133),
        Some("Chrome v133: 2025-02-01 | ECH: ✓ | HTTP3: ✓ | PSK: ✓ | 0-RTT: ✓ | PQ: ✓".to_string())
    );
    assert_eq!(adapter.get_version_info(BrowserType::Chrome, 119), None);
}

#[test]
fn test_every_entry_is_sound() {
    let registry = VersionRegistry::new();
    for list in [&registry.chrome, &registry.firefox, &registry.safari, &registry.edge, &registry.opera] {
        assert!(!list.is_empty());
        for e in list.iter() {
            assert!(e.tls13_support && e.http2_support && e.brotli_support);
            assert!(!e.profile_fn.is_empty());
            if let Some(f) = e.fallback_version {
                assert!(f < e.version);
                assert!(list.iter().any(|x| x.version == f));
            }
        }
    }
}
