//! Browser and network fingerprinting: packet, TLS, QUIC and HTTP parsing
//! with machine-checked contracts.
pub mod text;
pub mod unicode;
pub mod packet_capture;
pub mod tls_handshake;
pub mod grease;
pub mod quic;
pub mod header_map;
pub mod response;
pub mod cookie;
pub mod request;
pub mod client_error;
pub mod client;
pub mod proxy;
pub mod reporter;
pub mod io;
pub mod duration;
pub mod pool;
pub mod redis_config;
pub mod version_registry;
pub mod version_detector;
pub mod version_adapter;
pub mod profiles;
pub mod quick;
pub mod version_update;
pub mod webgl;
pub mod timing;
pub mod ml;
pub mod observability;
pub mod tls_metadata;
pub mod storage;
pub mod url;
pub mod redirects;
pub mod tls_extensions;
pub mod tls_config;
pub mod dns_cache;
pub mod session_pool;
pub mod exchange;
