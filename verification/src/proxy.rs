//! Proxy configuration, and the messages and decisions of the HTTP CONNECT
//! and SOCKS5 handshakes; the caller does the network reads and writes.
use vstd::prelude::*;
use vstd::string::StringSliceAdditionalSpecFns;
use vstd::utf8::encode_utf8;
use crate::client_error::HttpClientError;
use crate::text::{chars_of, decimal, lines, next_line, push_decimal, seq_contains, str_contains, string_of_range};
use crate::unicode::{utf8_lossy, utf8_lossy_decode};

verus! {

broadcast use vstd::string::group_string_axioms;

/// proxy type
#[derive(Debug, Clone)]
pub enum ProxyType {
    /// HTTP proxy
    Http,
    /// HTTPS proxy
    Https,
    /// SOCKS5 proxy
    Socks5,
}

/// proxy configuration
#[derive(Debug, Clone)]
pub struct ProxyConfig {
    /// proxy type
    pub proxy_type: ProxyType,
    /// proxy server address
    pub host: String,
    /// proxy server port
    pub port: u16,
    /// user name (optional)
    pub username: Option<String>,
    /// password (optional)
    pub password: Option<String>,
}

impl ProxyConfig {
    /// An HTTP proxy without credentials.
    pub fn http(host: String, port: u16) -> (r: Self)
        ensures
            r.proxy_type is Http,
            r.host == host,
            r.port == port,
            r.username is None,
            r.password is None,
    {
        ProxyConfig { proxy_type: ProxyType::Http, host, port, username: None, password: None }
    }

    /// A SOCKS5 proxy without credentials.
    pub fn socks5(host: String, port: u16) -> (r: Self)
        ensures
            r.proxy_type is Socks5,
            r.host == host,
            r.port == port,
            r.username is None,
            r.password is None,
    {
        ProxyConfig { proxy_type: ProxyType::Socks5, host, port, username: None, password: None }
    }

    /// The same proxy with credentials.
    pub fn with_auth(self, username: String, password: String) -> (r: Self)
        ensures
            r.proxy_type == self.proxy_type,
            r.host == self.host,
            r.port == self.port,
            r.username == Some(username),
            r.password == Some(password),
    {
        let mut r = self;
        r.username = Some(username);
        r.password = Some(password);
        r
    }

    /// `host:port` of the proxy server.
    pub fn address(&self) -> (r: String)
        ensures
            r@ == self.host@ + ":"@ + decimal(self.port as nat),
    {
        let mut s: String = self.host.clone();
        s.append(":");
        push_decimal(&mut s, self.port as u64);
        s
    }
}

/// `CONNECT host:port HTTP/1.1` request with its `Host` header.
pub open spec fn connect_request_text(host: Seq<char>, port: u16) -> Seq<char> {
    "CONNECT "@ + host + ":"@ + decimal(port as nat) + " HTTP/1.1\r\nHost: "@ + host + ":"@ + decimal(port as nat)
        + "\r\n\r\n"@
}

/// The CONNECT request sent to an HTTP proxy.
pub fn http_connect_request(target_host: &str, target_port: u16) -> (r: String)
    ensures
        r@ == connect_request_text(target_host@, target_port),
{
    let mut s: String = String::from_str("CONNECT ");
    s.append(target_host);
    s.append(":");
    push_decimal(&mut s, target_port as u64);
    s.append(" HTTP/1.1\r\nHost: ");
    s.append(target_host);
    s.append(":");
    push_decimal(&mut s, target_port as u64);
    s.append("\r\n\r\n");
    s
}

/// Outcome of an HTTP proxy's reply to CONNECT: success when the text holds
/// `200`, otherwise the reply's first line (or `not知error` when it has
/// none).
pub open spec fn http_proxy_outcome(reply: Seq<u8>) -> Result<(), Seq<char>> {
    let text = utf8_lossy(reply);
    if seq_contains(text, "200"@) {
        Ok(())
    } else {
        let ls = lines(text);
        Err("proxyConnection failed: "@ + if ls.len() > 0 { ls[0] } else { "not知error"@ })
    }
}

/// Judges an HTTP proxy's reply to CONNECT.
pub fn check_http_proxy_reply(reply: &[u8]) -> (r: Result<(), HttpClientError>)
    ensures
        r is Ok <==> http_proxy_outcome(reply@) is Ok,
        r matches Err(e) ==> e matches HttpClientError::ConnectionFailed(m)
            && http_proxy_outcome(reply@) == Err::<(), Seq<char>>(m@),
{
    let text: String = utf8_lossy_decode(reply);
    if str_contains(text.as_str(), "200") {
        return Ok(());
    }
    let cs: Vec<char> = chars_of(text.as_str());
    let n: usize = cs.len();
    let mut m: String = String::from_str("proxyConnection failed: ");
    if n == 0 {
        assert(lines(cs@) =~= Seq::<Seq<char>>::empty());
        m.append("not知error");
    } else {
        let (end, _next) = next_line(cs.as_slice(), 0);
        assert(cs@.subrange(0, n as int) =~= cs@);
        let first: String = string_of_range(cs.as_slice(), 0, end);
        m.append(first.as_str());
    }
    Err(HttpClientError::ConnectionFailed(m))
}

/// SOCKS5 greeting: version 5 with "no authentication", and
/// "user name/password" too when credentials are configured.
pub open spec fn socks5_greeting_bytes(with_auth: bool) -> Seq<u8> {
    if with_auth {
        seq![5u8, 2u8, 0u8, 2u8]
    } else {
        seq![5u8, 1u8, 0u8]
    }
}

/// The greeting sent to a SOCKS5 proxy.
pub fn socks5_greeting(proxy: &ProxyConfig) -> (r: Vec<u8>)
    ensures
        r@ == socks5_greeting_bytes(proxy.username is Some),
{
    if proxy.username.is_some() {
        let r: Vec<u8> = vec![5u8, 2u8, 0u8, 2u8];
        assert(r@ =~= seq![5u8, 2u8, 0u8, 2u8]);
        r
    } else {
        let r: Vec<u8> = vec![5u8, 1u8, 0u8];
        assert(r@ =~= seq![5u8, 1u8, 0u8]);
        r
    }
}

/// User name/password sub-negotiation request: version 1, then each
/// credential preceded by its byte length (modulo 256).
pub open spec fn socks5_auth_bytes(user: Seq<u8>, pass: Seq<u8>) -> Seq<u8> {
    seq![1u8, (user.len() % 256) as u8] + user + seq![(pass.len() % 256) as u8] + pass
}

/// What follows the proxy's method choice: nothing more for "no
/// authentication", the credentials for "user name/password", or the error
/// text.
pub open spec fn socks5_method_outcome(reply: Seq<u8>, user: Option<Seq<u8>>, pass: Option<Seq<u8>>) -> Result<Option<Seq<u8>>, Seq<char>> {
    if reply[0] != 5 {
        Err("invalid SOCKS5 version"@)
    } else if reply[1] == 2 {
        match (user, pass) {
            (Some(u), Some(p)) => Ok(Some(socks5_auth_bytes(u, p))),
            _ => Err("proxyneedauthenticationbutnotprovide凭data"@),
        }
    } else if reply[1] != 0 {
        Err("不supportauthenticationmethod: "@ + decimal(reply[1] as nat))
    } else {
        Ok(None)
    }
}

/// The UTF-8 bytes of an optional string.
pub open spec fn opt_bytes(s: Option<String>) -> Option<Seq<u8>> {
    match s {
        Some(x) => Some(encode_utf8(x@)),
        None => None,
    }
}


/// Appends all of `src` to `out`.
fn push_bytes(out: &mut Vec<u8>, src: &[u8])
    ensures
        final(out)@ == old(out)@ + src@,
{
    let mut i: usize = 0;
    while i < src.len()
        invariant
            i <= src@.len(),
            out@ == old(out)@ + src@.subrange(0, i as int),
        decreases src@.len() - i,
    {
        out.push(src[i]);
        i = i + 1;
        assert(out@ =~= old(out)@ + src@.subrange(0, i as int));
    }
    assert(src@.subrange(0, i as int) =~= src@);
}

/// Judges the proxy's two-byte method choice: the credentials to send next,
/// if any, or the error.
pub fn socks5_method_reply(reply: [u8; 2], proxy: &ProxyConfig) -> (r: Result<Option<Vec<u8>>, HttpClientError>)
    ensures
        match socks5_method_outcome(reply@, opt_bytes(proxy.username), opt_bytes(proxy.password)) {
            Ok(None) => r matches Ok(None),
            Ok(Some(b)) => r matches Ok(Some(v)) && v@ == b,
            Err(m) => r matches Err(HttpClientError::ConnectionFailed(e)) && e@ == m,
        },
{
    if reply[0] != 5 {
        return Err(HttpClientError::ConnectionFailed(String::from_str("invalid SOCKS5 version")));
    }
    if reply[1] == 2 {
        match (&proxy.username, &proxy.password) {
            (Some(user), Some(pass)) => {
                let u: &[u8] = user.as_str().as_bytes();
                let p: &[u8] = pass.as_str().as_bytes();
                let mut req: Vec<u8> = Vec::new();
                req.push(1u8);
                req.push((u.len() % 256) as u8);
                push_bytes(&mut req, u);
                req.push((p.len() % 256) as u8);
                push_bytes(&mut req, p);
                assert(req@ =~= socks5_auth_bytes(u@, p@));
                Ok(Some(req))
            },
            _ => Err(HttpClientError::ConnectionFailed(
                String::from_str("proxyneedauthenticationbutnotprovide凭data"),
            )),
        }
    } else if reply[1] != 0 {
        let mut m: String = String::from_str("不supportauthenticationmethod: ");
        push_decimal(&mut m, reply[1] as u64);
        Err(HttpClientError::ConnectionFailed(m))
    } else {
        Ok(None)
    }
}

/// Judges the proxy's two-byte answer to the credentials: accepted when
/// the status byte is 0.
pub fn socks5_auth_reply(reply: [u8; 2]) -> (r: Result<(), HttpClientError>)
    ensures
        r is Ok <==> reply@[1] == 0,
        r matches Err(e) ==> e matches HttpClientError::ConnectionFailed(m) && m@ == "SOCKS5 authenticationfailure"@,
{
    if reply[1] != 0 {
        Err(HttpClientError::ConnectionFailed(String::from_str("SOCKS5 authenticationfailure")))
    } else {
        Ok(())
    }
}

/// SOCKS5 CONNECT request for a domain name: version 5, CONNECT, reserved,
/// address type 3, the name preceded by its byte length (modulo 256), and
/// the port, most significant byte first.
pub open spec fn socks5_connect_bytes(host: Seq<u8>, port: u16) -> Seq<u8> {
    seq![5u8, 1u8, 0u8, 3u8, (host.len() % 256) as u8] + host + seq![(port / 256) as u8, (port % 256) as u8]
}

/// The CONNECT request sent to a SOCKS5 proxy.
pub fn socks5_connect_request(target_host: &str, target_port: u16) -> (r: Vec<u8>)
    ensures
        r@ == socks5_connect_bytes(target_host.spec_bytes(), target_port),
{
    let h: &[u8] = target_host.as_bytes();
    let mut req: Vec<u8> = vec![5u8, 1u8, 0u8, 3u8];
    req.push((h.len() % 256) as u8);
    push_bytes(&mut req, h);
    req.push((target_port / 256) as u8);
    req.push((target_port % 256) as u8);
    assert(req@ =~= socks5_connect_bytes(h@, target_port));
    req
}

/// How the rest of a SOCKS5 CONNECT reply is read after its first four bytes.
#[derive(Debug, Clone, Copy, PartialEq, Eq, Structural)]
pub enum Socks5AddressRest {
    /// This many more bytes (an IPv4 or IPv6 address and the port).
    Bytes(usize),
    /// One length byte, then that many bytes and two more (a domain name and
    /// the port).
    DomainName,
}

/// Outcome of the first four bytes of a SOCKS5 CONNECT reply.
pub open spec fn socks5_connect_outcome(head: Seq<u8>) -> Result<Socks5AddressRest, Seq<char>> {
    if head[1] != 0 {
        Err("SOCKS5 Connection failed，error码: "@ + decimal(head[1] as nat))
    } else if head[3] == 1 {
        Ok(Socks5AddressRest::Bytes(6))
    } else if head[3] == 3 {
        Ok(Socks5AddressRest::DomainName)
    } else if head[3] == 4 {
        Ok(Socks5AddressRest::Bytes(18))
    } else {
        Err("不supportaddresstype"@)
    }
}

/// Judges the first four bytes of a SOCKS5 CONNECT reply: how to read the
/// bound address that follows, or the error.
pub fn socks5_connect_reply(head: [u8; 4]) -> (r: Result<Socks5AddressRest, HttpClientError>)
    ensures
        match socks5_connect_outcome(head@) {
            Ok(rest) => r == Ok::<Socks5AddressRest, HttpClientError>(rest),
            Err(m) => r matches Err(HttpClientError::ConnectionFailed(e)) && e@ == m,
        },
{
    if head[1] != 0 {
        let mut m: String = String::from_str("SOCKS5 Connection failed，error码: ");
        push_decimal(&mut m, head[1] as u64);
        return Err(HttpClientError::ConnectionFailed(m));
    }
    if head[3] == 1 {
        Ok(Socks5AddressRest::Bytes(6))
    } else if head[3] == 3 {
        Ok(Socks5AddressRest::DomainName)
    } else if head[3] == 4 {
        Ok(Socks5AddressRest::Bytes(18))
    } else {
        Err(HttpClientError::ConnectionFailed(String::from_str("不supportaddresstype")))
    }
}

} // verus!
