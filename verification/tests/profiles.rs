use fingerprint::profiles::{
    chrome_104, chrome_117, chrome_133, chrome_133_psk, chrome_mobile_134, edge_137, firefox_102,
    firefox_123, firefox_mobile_130, mapped_tls_clients, opera_89, opera_90, safari_15_6_1,
    safari_ios_18_5, safari_ipad_15_6, ProfileMetadata,
};

#[test]
fn test_chrome_versions_exist() {
    let chrome_104 = chrome_104();
    assert_eq!(chrome_104.id(), "chrome_104");

    let chrome_117 = chrome_117();
    assert_eq!(chrome_117.id(), "chrome_117");

    let chrome_133 = chrome_133();
    assert_eq!(chrome_133.id(), "chrome_133");
}

#[test]
fn test_firefox_versions_exist() {
    let firefox_102 = firefox_102();
    assert_eq!(firefox_102.id(), "firefox_102");

    let firefox_123 = firefox_123();
    assert_eq!(firefox_123.id(), "firefox_123");
}

#[test]
fn test_safari_versions_exist() {
    let safari_15_6_1 = safari_15_6_1();
    assert_eq!(safari_15_6_1.id(), "safari_15_6_1");

    let safari_ios_18_5 = safari_ios_18_5();
    assert_eq!(safari_ios_18_5.id(), "safari_ios_18_5");
}

#[test]
fn test_opera_versions_exist() {
    let opera_89 = opera_89();
    assert_eq!(opera_89.id(), "opera_89");

    let opera_90 = opera_90();
    assert_eq!(opera_90.id(), "opera_90");
}

#[test]
fn test_mobile_variants() {
    let chrome_mobile_134 = chrome_mobile_134();
    assert_eq!(chrome_mobile_134.id(), "chrome_mobile_134");

    let firefox_mobile_130 = firefox_mobile_130();
    assert_eq!(firefox_mobile_130.id(), "firefox_mobile_130");
}

#[test]
fn test_profile_user_agents() {
    assert_eq!(
        chrome_133().metadata.user_agent,
        "Mozilla/5.0 (Windows NT 10.0; Win64; x64) AppleWebKit/537.36 (KHTML, like Gecko) Chrome/133.0.0.0 Safari/537.36"
    );
    assert_eq!(
        firefox_123().metadata.user_agent,
        "Mozilla/5.0 (Windows NT 10.0; Win64; x64; rv:123.0) Gecko/20100101 Firefox/123.0"
    );
    assert_eq!(
        safari_ios_18_5().metadata.user_agent,
        "Mozilla/5.0 (iPhone; CPU iPhone OS 18_5 like Mac OS X) AppleWebKit/605.1.15 (KHTML, like Gecko) Version/18.5 Mobile/15E148 Safari/604.1"
    );
    assert_eq!(
        edge_137().metadata.user_agent,
        "Mozilla/5.0 (Windows NT 10.0; Win64; x64) AppleWebKit/537.36 (KHTML, like Gecko) Chrome/137.0.0.0 Safari/537.36 Edg/137.0.0.0"
    );
    assert_eq!(
        opera_90().metadata.user_agent,
        "Mozilla/5.0 (Windows NT 10.0; Win64; x64) AppleWebKit/537.36 (KHTML, like Gecko) Chrome/104.0.0.0 Safari/537.36 OPR/90.0.0.0"
    );
    assert_eq!(
        firefox_mobile_130().metadata.user_agent,
        "Mozilla/5.0 (Android 10; Mobile; rv:130.0) Gecko/130.0 Firefox/130.0"
    );
}

#[test]
fn test_profile_metadata_fields() {
    let p = safari_15_6_1();
    assert_eq!(p.metadata.browser_name, "Safari");
    assert_eq!(p.metadata.browser_version, 1561);
    assert_eq!(p.metadata.platform, "macOS");
    assert!(!p.metadata.is_mobile);
    assert_eq!(p.metadata.version_string, "15.6.1");

    let m = chrome_mobile_134().metadata;
    assert_eq!(m.platform, "Android");
    assert!(m.is_mobile);
    assert_eq!(m.version_string, "134");

    assert_eq!(chrome_133_psk().id(), "chrome_133");
}

#[test]
fn test_ipad_profile_id() {
    let p = safari_ipad_15_6();
    assert_eq!(p.metadata.platform, "iPadOS");
    assert_eq!(p.metadata.version_string, "156");
    assert_eq!(p.id(), "safari_ios_156");
}

#[test]
fn test_metadata_id_spaces_and_dots() {
    let m = ProfileMetadata {
        browser_name: "Samsung Internet".to_string(),
        browser_version: 25,
        user_agent: "UA".to_string(),
        platform: "Android".to_string(),
        is_mobile: true,
        version_string: "25.0".to_string(),
    };
    assert_eq!(m.id(), "samsung_internet_mobile_25_0");
}

#[test]
fn test_mapped_tls_clients() {
    let map = mapped_tls_clients();
    assert_eq!(map.len(), 4);
    for (name, profile) in map.iter() {
        assert_eq!(&profile.id(), name);
    }
}
