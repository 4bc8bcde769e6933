# fingerprint

Browser and network fingerprinting with machine-checked contracts: parsing
of captured packets, TLS records and ClientHello messages, QUIC Initial
packets and HTTP/1.1 responses; the TLS extensions and ClientHello
specifications a browser offers; browser profiles, version registry and
User-Agent detection; cookies, redirects and the decisions of an HTTP
client; and a few analyses (storage, timing, WebGL, model caching).

Layout:

- `src/` — the library, verified with Verus. Each public function states
  what it returns in its `ensures` clause over mathematical models (`Seq`,
  `Map`, `int`); laws that relate several calls are public proof
  functions (`lemma_*`).
- `tests/` — ordinary Rust tests run against the compiled library.
- `app/` — what cannot be verified: network and file I/O, clocks,
  floating-point statistics and process-wide metrics, built on the
  library's decisions.

Not in this crate:

- Comparing ClientHello signatures (`compare_signatures`,
  `FingerprintStats::from_signatures`, signature extraction): they need
  a signature type that this crate does not define.
- `HttpRequest::with_headers`: it takes a header-set type that this crate
  does not define.
- Canonical status reason texts for HTTP/2 and HTTP/3 responses: they
  come from the `http` crate, which this crate does not depend on; the
  caller hands the status text in.
- The HTTP/2, HTTP/3 and TLS transports and the connection pools' socket
  work (h2, h3, quinn, rustls, tokio): only the decisions around them —
  header checks, body limits, response assembly, session reuse, redirect
  and SOCKS5 steps — are here.
