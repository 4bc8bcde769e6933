use fingerprint::dns_cache::DnsCache;
use fingerprint::ml::{ModelCache, PreTrainedModel};
use fingerprint::observability::{MetricsHandler, PrometheusMetrics};
use fingerprint::redis_config::{RedisBackendError, RedisCacheConfig, RedisConfig, RedisRateLimitBackend};
use fingerprint::reporter::ReportSection;
use fingerprint::storage::StorageAnalyzer;
use fingerprint::timing::{TimingAnalyzer, TimingProtection, TimingSample};
use fingerprint::webgl::WebGLAnalyzer;
use std::time::Duration;

#[test]
fn test_redis_config_default() {
    let config = RedisCacheConfig::default();
    assert_eq!(config.url, "redis://localhost:6379");
    assert_eq!(config.max_retries, 3);
}

#[test]
fn test_redis_config_builder() {
    let config = RedisCacheConfig::new("redis://example.com:6379".to_string()).with_max_retries(5);

    assert_eq!(config.url, "redis://example.com:6379");
    assert_eq!(config.max_retries, 5);
}

#[test]
fn test_redis_config_creation() {
    let config = RedisConfig::new("redis://localhost:6379".to_string());
    assert_eq!(config.url, "redis://localhost:6379");
    assert_eq!(config.pool_size, 10);
    assert_eq!(config.timeout.as_secs(), 5);
}

#[test]
fn test_redis_config_customization() {
    let config = RedisConfig::new("redis://localhost:6379".to_string())
        .with_pool_size(20)
        .with_timeout(Duration::from_secs(10));

    assert_eq!(config.pool_size, 20);
    assert_eq!(config.timeout.as_secs(), 10);
}

#[test]
fn test_redis_backend_creation() {
    let config = RedisConfig::new("redis://localhost:6379".to_string());
    let backend = RedisRateLimitBackend::new(config);
    assert_eq!(backend.config().url, "redis://localhost:6379");
}

#[test]
fn test_backend_default() {
    let backend = RedisRateLimitBackend::default();
    assert_eq!(backend.config().url, "redis://localhost:6379");
}

#[test]
fn test_key_generation() {
    let backend = RedisRateLimitBackend::default();
    assert_eq!(backend.quota_key("user123"), "rl:quota:user123");
    assert_eq!(backend.counter_key("user123", 1), "rl:counter:user123:1");
    assert_eq!(backend.metric_key("requests"), "rl:metric:requests");
}

#[test]
fn test_error_display() {
    let err = RedisBackendError::ConnectionError("refused".to_string());
    assert!(err.to_string().contains("refused"));

    let err = RedisBackendError::CommandError("syntax error".to_string());
    assert!(err.to_string().contains("syntax error"));
}

#[test]
fn test_timing_obfuscation() {
    let ts = 123456789u64;
    let obfuscated = TimingProtection::obfuscate_time(ts, 100);
    assert_eq!(obfuscated, 123456700);
}

#[test]
fn test_random_delay() {
    let delay = TimingProtection::add_random_delay(100, 200);
    assert!(delay.as_millis() >= 100 && delay.as_millis() <= 200);
}

#[test]
fn test_delay_and_drift() {
    assert_eq!(TimingProtection::delay_millis(100, 200), 150);
    assert_eq!(TimingProtection::add_random_delay(10, 10).as_millis(), 10);
    let mut analyzer = TimingAnalyzer::new();
    assert!(analyzer.drift_at(1000).is_err());
    assert!(matches!(analyzer.drift_at(1500), Ok(500)));
}

#[test]
fn test_webgl_analyzer() {
    let analyzer = WebGLAnalyzer::new();
    let fp = analyzer.analyze("NVIDIA", "GeForce", &["OES_texture_float"]);
    assert_eq!(fp.gpu_vendor, "NVIDIA");
}

#[test]
fn test_webgl_fingerprint_fields() {
    let analyzer = WebGLAnalyzer::default();
    let fp = analyzer.analyze("Intel", "UHD", &["a", "bcd"]);
    assert_eq!(fp.gpu_renderer, "UHD");
    assert_eq!(fp.extensions, vec!["a".to_string(), "bcd".to_string()]);
    assert_eq!(fp.shader_fingerprint, "4");
    assert!(fp.precision_high);
    assert_eq!(fp.max_texture_size, 16384);
}

#[test]
fn test_storage_analysis() {
    let ls = vec![("key1".to_string(), "value1".to_string())];
    let ss: Vec<(String, String)> = Vec::new();
    let dbs = vec!["mydb"];
    let cookies = vec![("session_id", "example.com", "/")];

    let result = StorageAnalyzer::analyze(&ls, &ss, &dbs, &cookies);
    assert!(result.is_ok());
    let fp = result.unwrap();
    assert_eq!(fp.localstorage.len(), 1);
    assert_eq!(fp.indexeddb_databases.len(), 1);
}

#[test]
fn test_storage_changes_detection() {
    let ls1 = vec![("key".to_string(), "value".to_string())];
    let fp1 = StorageAnalyzer::analyze(&ls1, &Vec::new(), &[], &[]).unwrap();

    let ls2 = vec![("key".to_string(), "new_value".to_string())];
    let fp2 = StorageAnalyzer::analyze(&ls2, &Vec::new(), &[], &[]).unwrap();

    let changes = StorageAnalyzer::detect_changes(&fp1, &fp2);
    assert!(changes.localstorage_changed);
    assert!(changes.hash_changed);
}

#[test]
fn test_storage_hash_and_flags() {
    let fp = StorageAnalyzer::analyze(&Vec::new(), &Vec::new(), &["d"], &[("c", "x.secure", "/httponly")]).unwrap();
    // hash of "d;c:x.secure;"
    let mut h: u64 = 0;
    for ch in "d;c:x.secure;".chars() {
        h = h.wrapping_mul(31).wrapping_add(ch as u64);
    }
    assert_eq!(fp.storage_hash, format!("{:x}", h));
    assert!(fp.cookies[0].secure);
    assert!(fp.cookies[0].http_only);
    assert!(!fp.storage_available.localstorage_available);
    assert!(fp.storage_available.indexeddb_available);
    let same = StorageAnalyzer::detect_changes(&fp, &fp);
    assert!(!same.localstorage_changed && !same.indexeddb_changed && !same.hash_changed);
}

#[test]
fn test_section_creation() {
    let mut section = ReportSection::new("Test Section".to_string());
    section.add_line("Line 1".to_string());
    section.add_line("Line 2".to_string());

    assert_eq!(section.content.len(), 2);
}

#[test]
fn test_section_markdown() {
    let mut section = ReportSection::new("Top".to_string());
    section.add_line("a".to_string());
    let mut sub = ReportSection::new("Sub".to_string());
    sub.add_line("b".to_string());
    section.add_subsection(sub);
    let md = section.to_markdown(2);
    assert!(md.starts_with("## Top\n"));
    assert!(md.contains("### Sub\n"));
}

#[test]
fn test_counter_lines_and_responses() {
    let metrics = PrometheusMetrics {
        total_requests: 1000,
        total_rejected: 50,
        cache_hits: 800,
        cache_misses: 200,
        active_users: 42,
        active_ips: 10,
    };
    let out = metrics.counter_lines();
    assert!(out.contains("rate_limiter_requests_total 1000"));
    assert!(out.contains("rate_limiter_requests_rejected_total 50"));
    assert!(out.contains("rate_limiter_cache_hits_total 800"));
    assert!(out.contains("rate_limiter_active_users_gauge 42"));
    let resp = MetricsHandler::response("200 OK", "text/plain", "héllo");
    assert_eq!(resp, "HTTP/1.1 200 OK\r\nContent-Type: text/plain\r\nContent-Length: 6\r\n\r\nhéllo");
    assert!(MetricsHandler::unavailable_response().starts_with("HTTP/1.1 503 Service Unavailable"));
}

#[test]
fn test_model_names() {
    let all = PreTrainedModel::all();
    assert_eq!(all.len(), 5);
    for m in all.iter() {
        assert!(!m.name().is_empty());
        assert!(m.estimated_size_bytes() > 0);
    }
}

#[test]
fn test_model_cache_lru() {
    let mut cache = ModelCache::new(2);
    assert!(!cache.is_loaded(PreTrainedModel::AuthenticityClassifier));
    assert!(!cache.load(PreTrainedModel::AuthenticityClassifier, 10));
    assert!(cache.is_loaded(PreTrainedModel::AuthenticityClassifier));
    assert!(!cache.load(PreTrainedModel::BrowserTypeClassifier, 20));
    assert!(!cache.load(PreTrainedModel::BehaviorAnomalyDetector, 30));
    assert!(!cache.is_loaded(PreTrainedModel::AuthenticityClassifier));
    assert!(cache.is_loaded(PreTrainedModel::BrowserTypeClassifier));
    let stats = cache.stats();
    assert_eq!(stats.capacity, 2);
    assert_eq!(stats.loaded_models, 2);
    assert_eq!(stats.loaded_bytes, 50);
    assert_eq!(stats.evictions, 1);
    // a hit makes the model the most recent, so the other one goes next
    assert!(cache.load(PreTrainedModel::BrowserTypeClassifier, 20));
    assert!(!cache.load(PreTrainedModel::OSClassifier, 5));
    assert!(cache.is_loaded(PreTrainedModel::BrowserTypeClassifier));
    assert!(!cache.is_loaded(PreTrainedModel::BehaviorAnomalyDetector));
    assert_eq!(ModelCache::new(0).stats().capacity, 1);
}

#[test]
fn test_drift_anomalies_and_normalization() {
    let samples = vec![
        TimingSample { timestamp: 1000, drift: 10 },
        TimingSample { timestamp: 1500, drift: 12 },
        TimingSample { timestamp: 900, drift: 100 },
        TimingSample { timestamp: 1200, drift: 11 },
    ];
    // average drift 33; deviations 23, 21, 67, 22; only 67 exceeds 66
    assert_eq!(TimingProtection::detect_anomalies(&samples), vec![2]);
    assert!(TimingProtection::detect_anomalies(&samples[..1]).is_empty());
    let negative = vec![TimingSample { timestamp: 0, drift: -7 }, TimingSample { timestamp: 0, drift: 0 }];
    // sum -7, average rounds towards zero to -3; deviations 4 and 3 exceed -6
    assert_eq!(TimingProtection::detect_anomalies(&negative), vec![0, 1]);

    let mut ts = samples.clone();
    TimingProtection::normalize_timestamps(&mut ts);
    let stamps: Vec<u64> = ts.iter().map(|t| t.timestamp).collect();
    assert_eq!(stamps, vec![100, 600, 0, 300]);
    assert_eq!(ts[2].drift, 100);
    let mut empty: Vec<TimingSample> = Vec::new();
    TimingProtection::normalize_timestamps(&mut empty);
    assert!(empty.is_empty());
}

#[test]
fn test_dns_cache_ttl() {
    let mut cache: DnsCache<Vec<u8>> = DnsCache::new(100);
    cache.put("a.com", vec![1], 10);
    cache.put("b.com", vec![2], 50);
    assert_eq!(cache.get("a.com", 110), Some(&vec![1]));
    assert_eq!(cache.get("a.com", 111), None);
    assert_eq!(cache.get("c.com", 0), None);
    assert_eq!(cache.stats(111), (2, 1));
    cache.put("a.com", vec![3], 120);
    assert_eq!(cache.get("a.com", 130), Some(&vec![3]));
    cache.invalidate("b.com");
    assert_eq!(cache.stats(130), (1, 0));
    cache.put("b.com", vec![4], 0);
    assert_eq!(cache.cleanup_expired(200), 1);
    assert_eq!(cache.get("a.com", 200), Some(&vec![3]));
    assert_eq!(cache.stats(200), (1, 0));
    cache.clear();
    assert_eq!(cache.stats(0), (0, 0));
}
