//! Rate-limiter metrics: the counters, their Prometheus text, and HTTP
//! responses of the metrics endpoint.
use vstd::prelude::*;
use crate::text::{decimal, push_decimal};

verus! {

broadcast use vstd::string::group_string_axioms;

/// Counters of the rate limiter.
#[derive(Debug, Clone)]
pub struct PrometheusMetrics {
    pub total_requests: u64,
    pub total_rejected: u64,
    pub cache_hits: u64,
    pub cache_misses: u64,
    pub active_users: usize,
    pub active_ips: usize,
}

/// Help, type and sample lines of one metric.
pub open spec fn metric_block(name: Seq<char>, help: Seq<char>, kind: Seq<char>, value: nat) -> Seq<char> {
    "# HELP "@ + name + " "@ + help + "\n# TYPE "@ + name + " "@ + kind + "\n"@ + name + " "@ + decimal(value) + "\n"@
}

/// Prometheus text of the counters and gauges, in the order the endpoint
/// lists them (the two percentages that follow are floating-point values).
pub open spec fn counter_blocks(m: PrometheusMetrics) -> Seq<char> {
    metric_block("rate_limiter_requests_total"@, "Total number of requests processed"@, "counter"@, m.total_requests as nat)
        + metric_block("rate_limiter_requests_rejected_total"@, "Total number of rejected requests"@, "counter"@, m.total_rejected as nat)
        + metric_block("rate_limiter_cache_hits_total"@, "Total number of cache hits"@, "counter"@, m.cache_hits as nat)
        + metric_block("rate_limiter_cache_misses_total"@, "Total number of cache misses"@, "counter"@, m.cache_misses as nat)
        + metric_block("rate_limiter_active_users_gauge"@, "Current number of active users"@, "gauge"@, m.active_users as nat)
        + metric_block("rate_limiter_active_ips_gauge"@, "Current number of active IP addresses"@, "gauge"@, m.active_ips as nat)
}

/// The help, type and sample lines of one metric.
fn metric_block_string(name: &str, help: &str, kind: &str, value: u64) -> (r: String)
    ensures
        r@ == metric_block(name@, help@, kind@, value as nat),
{
    let mut s: String = String::from_str("# HELP ");
    s.append(name);
    s.append(" ");
    s.append(help);
    s.append("\n# TYPE ");
    s.append(name);
    s.append(" ");
    s.append(kind);
    s.append("\n");
    s.append(name);
    s.append(" ");
    push_decimal(&mut s, value);
    s.append("\n");
    s
}

impl PrometheusMetrics {
    /// Prometheus text of the counters and gauges.
    pub fn counter_lines(&self) -> (r: String)
        ensures
            r@ == counter_blocks(*self),
    {
        let mut out: String = metric_block_string(
            "rate_limiter_requests_total",
            "Total number of requests processed",
            "counter",
            self.total_requests,
        );
        let b: String = metric_block_string(
            "rate_limiter_requests_rejected_total",
            "Total number of rejected requests",
            "counter",
            self.total_rejected,
        );
        out.append(b.as_str());
        let b: String = metric_block_string(
            "rate_limiter_cache_hits_total",
            "Total number of cache hits",
            "counter",
            self.cache_hits,
        );
        out.append(b.as_str());
        let b: String = metric_block_string(
            "rate_limiter_cache_misses_total",
            "Total number of cache misses",
            "counter",
            self.cache_misses,
        );
        out.append(b.as_str());
        let b: String = metric_block_string(
            "rate_limiter_active_users_gauge",
            "Current number of active users",
            "gauge",
            self.active_users as u64,
        );
        out.append(b.as_str());
        let b: String = metric_block_string(
            "rate_limiter_active_ips_gauge",
            "Current number of active IP addresses",
            "gauge",
            self.active_ips as u64,
        );
        out.append(b.as_str());
        out
    }
}

/// An HTTP/1.1 response with a status line, a content type and a body,
/// whose `Content-Length` is the body's byte length.
pub open spec fn http_response_text(status: Seq<char>, content_type: Seq<char>, body: Seq<char>, body_bytes: nat) -> Seq<char> {
    "HTTP/1.1 "@ + status + "\r\nContent-Type: "@ + content_type + "\r\nContent-Length: "@ + decimal(body_bytes)
        + "\r\n\r\n"@ + body
}

/// HTTP responses of the metrics endpoint.
pub struct MetricsHandler;

impl MetricsHandler {
    /// A response carrying a body; `Content-Length` is its byte length.
    pub fn response(status: &str, content_type: &str, body: &str) -> (r: String)
        ensures
            r@ == http_response_text(status@, content_type@, body@, vstd::utf8::encode_utf8(body@).len()),
    {
        let mut s: String = String::from_str("HTTP/1.1 ");
        s.append(status);
        s.append("\r\nContent-Type: ");
        s.append(content_type);
        s.append("\r\nContent-Length: ");
        push_decimal(&mut s, body.as_bytes().len() as u64);
        s.append("\r\n\r\n");
        s.append(body);
        s
    }

    /// The 503 response of an unavailable rate limiter.
    pub fn unavailable_response() -> (r: String)
        ensures
            r@ == http_response_text(
                "503 Service Unavailable"@,
                "text/plain"@,
                "Rate limiter service unavailable"@,
                32,
            ),
    {
        proof {
            reveal_strlit("Rate limiter service unavailable");
            vstd::string::is_ascii_spec_bytes("Rate limiter service unavailable");
        }
        Self::response("503 Service Unavailable", "text/plain", "Rate limiter service unavailable")
    }
}

} // verus!
