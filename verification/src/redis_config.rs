//! Configuration, key naming and errors of the Redis cache and rate-limit
//! backends.
use vstd::prelude::*;
use std::time::Duration;
use crate::duration::{millis, secs};
use crate::text::{decimal, push_decimal};

verus! {

broadcast use vstd::string::group_string_axioms;

/// Redis cache configuration.
#[derive(Debug)]
pub struct RedisCacheConfig {
    pub url: String,
    pub connection_timeout: Duration,
    pub command_timeout: Duration,
    pub max_retries: u32,
    pub retry_delay: Duration,
}

impl Clone for RedisCacheConfig {
    /// A copy of the configuration.
    fn clone(&self) -> (r: Self)
        ensures
            r.url@ == self.url@,
            r.connection_timeout == self.connection_timeout,
            r.command_timeout == self.command_timeout,
            r.max_retries == self.max_retries,
            r.retry_delay == self.retry_delay,
    {
        RedisCacheConfig {
            url: self.url.clone(),
            connection_timeout: self.connection_timeout,
            command_timeout: self.command_timeout,
            max_retries: self.max_retries,
            retry_delay: self.retry_delay,
        }
    }
}

impl Default for RedisCacheConfig {
    /// `redis://localhost:6379`, 5 s to connect, 2 s per command, 3 retries
    /// 100 ms apart.
    fn default() -> (r: Self)
        ensures
            r.url@ == "redis://localhost:6379"@,
            r.max_retries == 3,
    {
        RedisCacheConfig {
            url: String::from_str("redis://localhost:6379"),
            connection_timeout: secs(5),
            command_timeout: secs(2),
            max_retries: 3,
            retry_delay: millis(100),
        }
    }
}

impl RedisCacheConfig {
    /// The default configuration for another URL.
    pub fn new(url: String) -> (r: Self)
        ensures
            r.url == url,
            r.max_retries == 3,
    {
        let d = Self::default();
        RedisCacheConfig {
            url,
            connection_timeout: d.connection_timeout,
            command_timeout: d.command_timeout,
            max_retries: d.max_retries,
            retry_delay: d.retry_delay,
        }
    }

    /// The same configuration with another connect timeout.
    pub fn with_connection_timeout(self, timeout: Duration) -> (r: Self)
        ensures
            r.url == self.url,
            r.connection_timeout == timeout,
            r.command_timeout == self.command_timeout,
            r.max_retries == self.max_retries,
            r.retry_delay == self.retry_delay,
    {
        let mut r = self;
        r.connection_timeout = timeout;
        r
    }

    /// The same configuration with another retry count.
    pub fn with_max_retries(self, retries: u32) -> (r: Self)
        ensures
            r.url == self.url,
            r.connection_timeout == self.connection_timeout,
            r.command_timeout == self.command_timeout,
            r.max_retries == retries,
            r.retry_delay == self.retry_delay,
    {
        let mut r = self;
        r.max_retries = retries;
        r
    }
}

/// Redis cluster configuration.
#[derive(Debug)]
pub struct RedisClusterConfig {
    pub nodes: Vec<String>,
    pub connection_timeout: Duration,
    pub command_timeout: Duration,
    pub read_from_replicas: bool,
}

impl Clone for RedisClusterConfig {
    /// A copy of the configuration.
    fn clone(&self) -> (r: Self)
        ensures
            r.nodes@.len() == self.nodes@.len(),
            forall|i: int| 0 <= i < self.nodes@.len() ==> #[trigger] r.nodes@[i]@ == self.nodes@[i]@,
            r.connection_timeout == self.connection_timeout,
            r.command_timeout == self.command_timeout,
            r.read_from_replicas == self.read_from_replicas,
    {
        let mut nodes: Vec<String> = Vec::new();
        let mut i: usize = 0;
        while i < self.nodes.len()
            invariant
                i <= self.nodes@.len(),
                nodes@.len() == i,
                forall|k: int| 0 <= k < i ==> #[trigger] nodes@[k]@ == self.nodes@[k]@,
            decreases self.nodes@.len() - i,
        {
            nodes.push(self.nodes[i].clone());
            i = i + 1;
        }
        RedisClusterConfig {
            nodes,
            connection_timeout: self.connection_timeout,
            command_timeout: self.command_timeout,
            read_from_replicas: self.read_from_replicas,
        }
    }
}

impl Default for RedisClusterConfig {
    /// Three local nodes on ports 7000 to 7002, 5 s to connect, 2 s per
    /// command, reads from replicas.
    fn default() -> (r: Self)
        ensures
            r.nodes@.len() == 3,
            r.nodes@[0]@ == "redis://127.0.0.1:7000"@,
            r.nodes@[1]@ == "redis://127.0.0.1:7001"@,
            r.nodes@[2]@ == "redis://127.0.0.1:7002"@,
            r.read_from_replicas,
    {
        let mut nodes: Vec<String> = Vec::new();
        nodes.push(String::from_str("redis://127.0.0.1:7000"));
        nodes.push(String::from_str("redis://127.0.0.1:7001"));
        nodes.push(String::from_str("redis://127.0.0.1:7002"));
        RedisClusterConfig { nodes, connection_timeout: secs(5), command_timeout: secs(2), read_from_replicas: true }
    }
}

impl RedisClusterConfig {
    /// The default configuration for other nodes.
    pub fn new(nodes: Vec<String>) -> (r: Self)
        ensures
            r.nodes == nodes,
            r.read_from_replicas,
    {
        let d = Self::default();
        RedisClusterConfig {
            nodes,
            connection_timeout: d.connection_timeout,
            command_timeout: d.command_timeout,
            read_from_replicas: d.read_from_replicas,
        }
    }
}

/// Redis cluster cache (holds its configuration).
pub struct RedisClusterCache {
    config: RedisClusterConfig,
}

impl RedisClusterCache {
    /// A cache for a cluster configuration.
    pub fn new(config: RedisClusterConfig) -> (r: Self)
        ensures
            r.configuration() == config,
    {
        RedisClusterCache { config }
    }

    /// The configuration.
    pub closed spec fn configuration(&self) -> RedisClusterConfig {
        self.config
    }
}

/// Default connection pool size.
pub const DEFAULT_REDIS_POOL_SIZE: u32 = 10;
/// Default connect timeout, in seconds.
pub const DEFAULT_REDIS_TIMEOUT_SECS: u64 = 5;
/// Default command timeout, in seconds.
pub const DEFAULT_REDIS_COMMAND_TIMEOUT_SECS: u64 = 2;

/// Redis rate-limit backend configuration.
#[derive(Debug)]
pub struct RedisConfig {
    pub url: String,
    pub pool_size: u32,
    pub timeout: Duration,
    pub command_timeout: Duration,
}

impl Clone for RedisConfig {
    /// A copy of the configuration.
    fn clone(&self) -> (r: Self)
        ensures
            r.url@ == self.url@,
            r.pool_size == self.pool_size,
            r.timeout == self.timeout,
            r.command_timeout == self.command_timeout,
    {
        RedisConfig {
            url: self.url.clone(),
            pool_size: self.pool_size,
            timeout: self.timeout,
            command_timeout: self.command_timeout,
        }
    }
}

impl RedisConfig {
    /// A configuration with pool size 10, 5 s to connect and 2 s per command.
    pub fn new(url: String) -> (r: Self)
        ensures
            r.url == url,
            r.pool_size == DEFAULT_REDIS_POOL_SIZE,
    {
        RedisConfig {
            url,
            pool_size: DEFAULT_REDIS_POOL_SIZE,
            timeout: secs(DEFAULT_REDIS_TIMEOUT_SECS),
            command_timeout: secs(DEFAULT_REDIS_COMMAND_TIMEOUT_SECS),
        }
    }

    /// The same configuration with another pool size.
    pub fn with_pool_size(self, size: u32) -> (r: Self)
        ensures
            r.url == self.url,
            r.pool_size == size,
            r.timeout == self.timeout,
            r.command_timeout == self.command_timeout,
    {
        let mut r = self;
        r.pool_size = size;
        r
    }

    /// The same configuration with another connect timeout.
    pub fn with_timeout(self, timeout: Duration) -> (r: Self)
        ensures
            r.url == self.url,
            r.pool_size == self.pool_size,
            r.timeout == timeout,
            r.command_timeout == self.command_timeout,
    {
        let mut r = self;
        r.timeout = timeout;
        r
    }
}

/// Errors of the Redis rate-limit backend.
#[derive(Debug, Clone)]
pub enum RedisBackendError {
    ConnectionError(String),
    CommandError(String),
    SerializationError(String),
    TimeoutError(String),
}

/// Display text of a backend error.
pub open spec fn backend_error_text(e: RedisBackendError) -> Seq<char> {
    match e {
        RedisBackendError::ConnectionError(s) => "Redis connection error: "@ + s@,
        RedisBackendError::CommandError(s) => "Redis command error: "@ + s@,
        RedisBackendError::SerializationError(s) => "Serialization error: "@ + s@,
        RedisBackendError::TimeoutError(s) => "Redis timeout: "@ + s@,
    }
}

impl RedisBackendError {
    /// The error's display text.
    pub fn to_string(&self) -> (r: String)
        ensures
            r@ == backend_error_text(*self),
    {
        let (mut s, m) = match self {
            RedisBackendError::ConnectionError(m) => (String::from_str("Redis connection error: "), m),
            RedisBackendError::CommandError(m) => (String::from_str("Redis command error: "), m),
            RedisBackendError::SerializationError(m) => (String::from_str("Serialization error: "), m),
            RedisBackendError::TimeoutError(m) => (String::from_str("Redis timeout: "), m),
        };
        s.append(m.as_str());
        s
    }
}

/// Redis rate-limit backend (holds its configuration).
pub struct RedisRateLimitBackend {
    config: RedisConfig,
}

impl RedisRateLimitBackend {
    /// A backend for a configuration.
    pub fn new(config: RedisConfig) -> (r: Self)
        ensures
            r.configuration() == config,
    {
        RedisRateLimitBackend { config }
    }

    /// The configuration.
    pub fn config(&self) -> (r: &RedisConfig)
        ensures
            *r == self.configuration(),
    {
        &self.config
    }

    /// The configuration.
    pub closed spec fn configuration(&self) -> RedisConfig {
        self.config
    }

    /// Key of a user's quota: `rl:quota:<user>`.
    pub fn quota_key(&self, user_id: &str) -> (r: String)
        ensures
            r@ == "rl:quota:"@ + user_id@,
    {
        let mut s: String = String::from_str("rl:quota:");
        s.append(user_id);
        s
    }

    /// Key of a user's monthly counter: `rl:counter:<user>:<month>`.
    pub fn counter_key(&self, user_id: &str, month: u32) -> (r: String)
        ensures
            r@ == "rl:counter:"@ + user_id@ + ":"@ + decimal(month as nat),
    {
        let mut s: String = String::from_str("rl:counter:");
        s.append(user_id);
        s.append(":");
        push_decimal(&mut s, month as u64);
        s
    }

    /// Key of a metric: `rl:metric:<name>`.
    pub fn metric_key(&self, metric_name: &str) -> (r: String)
        ensures
            r@ == "rl:metric:"@ + metric_name@,
    {
        let mut s: String = String::from_str("rl:metric:");
        s.append(metric_name);
        s
    }
}

impl Default for RedisRateLimitBackend {
    /// A backend for `redis://localhost:6379`.
    fn default() -> (r: Self)
        ensures
            r.configuration().url@ == "redis://localhost:6379"@,
            r.configuration().pool_size == DEFAULT_REDIS_POOL_SIZE,
    {
        Self::new(RedisConfig::new(String::from_str("redis://localhost:6379")))
    }
}

} // verus!
