//! Connection-pool configuration and statistics.
use vstd::prelude::*;
use std::time::Duration;
use crate::duration::secs;

verus! {

/// Default largest number of connections.
pub const DEFAULT_MAX_CONNECTIONS: usize = 100;
/// Default smallest number of idle connections.
pub const DEFAULT_MIN_IDLE: usize = 10;
/// Default connect timeout, in seconds.
pub const DEFAULT_CONNECT_TIMEOUT_SECS: u64 = 30;
/// Default idle timeout, in seconds.
pub const DEFAULT_IDLE_TIMEOUT_SECS: u64 = 90;
/// Default largest lifetime of a connection, in seconds.
pub const DEFAULT_MAX_LIFETIME_SECS: u64 = 600;

/// connection pool manager configuration
#[derive(Debug)]
pub struct PoolManagerConfig {
    /// maximum connection count
    pub max_connections: usize,
    /// minimum idle connection count
    pub min_idle: usize,
    /// connection timeout
    pub connect_timeout: Duration,
    /// idle timeout
    pub idle_timeout: Duration,
    /// maximum lifetime
    pub max_lifetime: Duration,
    /// whether connections are reused
    pub enable_reuse: bool,
}

impl Clone for PoolManagerConfig {
    /// A copy of the configuration.
    fn clone(&self) -> (r: Self)
        ensures
            r == *self,
    {
        PoolManagerConfig {
            max_connections: self.max_connections,
            min_idle: self.min_idle,
            connect_timeout: self.connect_timeout,
            idle_timeout: self.idle_timeout,
            max_lifetime: self.max_lifetime,
            enable_reuse: self.enable_reuse,
        }
    }
}

impl Default for PoolManagerConfig {
    /// 100 connections at most, 10 idle at least, timeouts of 30 s (connect)
    /// and 90 s (idle), lifetime 600 s, reuse on.
    fn default() -> (r: Self)
        ensures
            r.max_connections == DEFAULT_MAX_CONNECTIONS,
            r.min_idle == DEFAULT_MIN_IDLE,
            r.enable_reuse,
    {
        PoolManagerConfig {
            max_connections: DEFAULT_MAX_CONNECTIONS,
            min_idle: DEFAULT_MIN_IDLE,
            connect_timeout: secs(DEFAULT_CONNECT_TIMEOUT_SECS),
            idle_timeout: secs(DEFAULT_IDLE_TIMEOUT_SECS),
            max_lifetime: secs(DEFAULT_MAX_LIFETIME_SECS),
            enable_reuse: true,
        }
    }
}

/// connection pool statistics
#[derive(Debug, Clone)]
pub struct PoolStats {
    pub endpoint: String,
    pub total_connections: i64,
    pub active_connections: i64,
    pub idle_connections: i64,
    pub total_requests: i64,
    pub successful_requests: i64,
    pub failed_requests: i64,
}

/// TLS connector (the TLS configuration travels with each request).
pub struct TlsConnector {}

impl TlsConnector {
    /// A connector.
    pub fn new() -> (r: Self) {
        TlsConnector {}
    }
}

impl Default for TlsConnector {
    /// A connector.
    fn default() -> (r: Self) {
        Self::new()
    }
}

} // verus!
