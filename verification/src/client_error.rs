//! Errors of the HTTP client.
use vstd::prelude::*;

verus! {

broadcast use vstd::string::group_string_axioms;

/// An I/O error of std.
#[verifier::external_type_specification]
#[verifier::external_body]
pub struct ExIoError(std::io::Error);

/// Calls `Display` of `std::io::Error`; the contract states nothing of the
/// text.
#[verifier::external_body]
pub(crate) fn io_error_text(e: &std::io::Error) -> String {
    e.to_string()
}

/// HTTP client error
#[derive(Debug)]
pub enum HttpClientError {
    Io(std::io::Error),
    InvalidUrl(String),
    InvalidResponse(String),
    TlsError(String),
    ConnectionFailed(String),
    Timeout,
    Http2Error(String),
    Http3Error(String),
    InvalidRequest(String),
}

/// Display text of an error other than an I/O error.
pub open spec fn client_error_text(e: HttpClientError) -> Seq<char> {
    match e {
        HttpClientError::Io(_) => "IO error: "@,
        HttpClientError::InvalidUrl(s) => "Invalid URL: "@ + s@,
        HttpClientError::InvalidResponse(s) => "Invalid response: "@ + s@,
        HttpClientError::TlsError(s) => "TLS error: "@ + s@,
        HttpClientError::ConnectionFailed(s) => "Connection failed: "@ + s@,
        HttpClientError::Timeout => "Request timeout"@,
        HttpClientError::Http2Error(s) => "HTTP/2 error: "@ + s@,
        HttpClientError::Http3Error(s) => "HTTP/3 error: "@ + s@,
        HttpClientError::InvalidRequest(s) => "Invalid request: "@ + s@,
    }
}

impl HttpClientError {
    /// The error's display text; an I/O error's is `IO error: ` followed by
    /// the I/O error's own text.
    pub fn to_string(&self) -> (r: String)
        ensures
            !(self is Io) ==> r@ == client_error_text(*self),
            self is Io ==> r@.len() >= 10 && r@.subrange(0, 10) == "IO error: "@,
    {
        match self {
            HttpClientError::Io(e) => {
                let mut s: String = String::from_str("IO error: ");
                let t: String = io_error_text(e);
                let ghost before = s@;
                s.append(t.as_str());
                proof { reveal_strlit("IO error: "); }
                assert(s@.subrange(0, 10) =~= before);
                s
            },
            HttpClientError::InvalidUrl(m) => {
                let mut s: String = String::from_str("Invalid URL: ");
                s.append(m.as_str());
                s
            },
            HttpClientError::InvalidResponse(m) => {
                let mut s: String = String::from_str("Invalid response: ");
                s.append(m.as_str());
                s
            },
            HttpClientError::TlsError(m) => {
                let mut s: String = String::from_str("TLS error: ");
                s.append(m.as_str());
                s
            },
            HttpClientError::ConnectionFailed(m) => {
                let mut s: String = String::from_str("Connection failed: ");
                s.append(m.as_str());
                s
            },
            HttpClientError::Timeout => String::from_str("Request timeout"),
            HttpClientError::Http2Error(m) => {
                let mut s: String = String::from_str("HTTP/2 error: ");
                s.append(m.as_str());
                s
            },
            HttpClientError::Http3Error(m) => {
                let mut s: String = String::from_str("HTTP/3 error: ");
                s.append(m.as_str());
                s
            },
            HttpClientError::InvalidRequest(m) => {
                let mut s: String = String::from_str("Invalid request: ");
                s.append(m.as_str());
                s
            },
        }
    }
}

} // verus!
