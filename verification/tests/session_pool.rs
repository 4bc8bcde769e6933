use fingerprint::session_pool::{SessionPool, SessionStep, DEFAULT_SESSION_TIMEOUT_NANOS};

#[test]
fn test_session_pool_create_wait_reuse() {
    let mut pool: SessionPool<u32> = SessionPool::new(DEFAULT_SESSION_TIMEOUT_NANOS);
    assert_eq!(pool.acquire("example.com:443", 0), SessionStep::Create);
    // a second caller waits while the first creates
    assert_eq!(pool.acquire("example.com:443", 5), SessionStep::Wait);
    // another host is independent
    assert_eq!(pool.acquire("other.com:443", 5), SessionStep::Create);

    pool.created("example.com:443", 7, 10);
    assert_eq!(pool.acquire("example.com:443", 20), SessionStep::Reuse);
    assert_eq!(pool.get("example.com:443"), Some(&7));
    assert_eq!(pool.get("missing:1"), None);
}

#[test]
fn test_session_pool_expiry() {
    let mut pool: SessionPool<&str> = SessionPool::new(100);
    assert_eq!(pool.acquire("h:1", 0), SessionStep::Create);
    pool.created("h:1", "s1", 0);
    // used at 99: still live, and marked used then
    assert_eq!(pool.acquire("h:1", 99), SessionStep::Reuse);
    // 100 after the last use the session is gone
    assert_eq!(pool.acquire("h:1", 199), SessionStep::Create);
    assert_eq!(pool.get("h:1"), None);
    // a clock that went back counts as no time passed
    pool.created("h:1", "s2", 500);
    assert_eq!(pool.acquire("h:1", 400), SessionStep::Reuse);
    assert_eq!(pool.get("h:1"), Some(&"s2"));
}

#[test]
fn test_session_pool_failure_and_removal() {
    let mut pool: SessionPool<u8> = SessionPool::new(1_000);
    assert_eq!(pool.acquire("a:1", 0), SessionStep::Create);
    pool.creation_failed("a:1");
    assert_eq!(pool.acquire("a:1", 1), SessionStep::Create);
    pool.created("a:1", 1, 1);
    pool.remove_session("a:1");
    assert_eq!(pool.get("a:1"), None);
    assert_eq!(pool.acquire("a:1", 2), SessionStep::Create);
    pool.created("a:1", 2, 2);
    pool.clear();
    assert_eq!(pool.get("a:1"), None);

    let mut zero: SessionPool<u8> = SessionPool::new(0);
    assert_eq!(zero.acquire("z:1", 0), SessionStep::Create);
    zero.created("z:1", 9, 0);
    // with no time to live a session is never reused
    assert_eq!(zero.acquire("z:1", 0), SessionStep::Create);
}
