use fingerprint::response::HttpResponse;
use std::io::Write;

#[test]
fn test_parse_response() {
    let raw = b"HTTP/1.1 200 OK\r\nContent-Type: text/html\r\nContent-Length: 11\r\n\r\nHello World";

    let response = HttpResponse::parse(raw).unwrap();

    assert_eq!(response.status_code, 200);
    assert_eq!(response.status_text, "OK");
    assert_eq!(response.get_header("content-type"), Some(&"text/html".to_string()));
    assert_eq!(response.body_as_string().unwrap(), "Hello World");
    assert!(response.is_success());
}

#[test]
fn test_parse_error_response() {
    let raw = b"HTTP/1.1 404 Not Found\r\n\r\n";

    let response = HttpResponse::parse(raw).unwrap();

    assert_eq!(response.status_code, 404);
    assert_eq!(response.status_text, "Not Found");
    assert!(!response.is_success());
}

#[test]
fn test_chunked_encoding() {
    let raw = b"HTTP/1.1 200 OK\r\n\
Transfer-Encoding: chunked\r\n\
\r\n\
4\r\n\
Wiki\r\n\
5\r\n\
pedia\r\n\
E\r\n\
\x20in\r\n\
\r\n\
chunks.\r\n\
0\r\n\
\r\n";

    let response = HttpResponse::parse(raw).expect("Chunked parsed failure");
    assert_eq!(response.body_as_string().unwrap(), "Wikipedia in\r\n\r\nchunks.");
}

#[test]
fn test_gzip_compression() {
    let data = "Hello Gzip World";
    let mut encoder = flate2::write::GzEncoder::new(Vec::new(), flate2::Compression::default());
    encoder.write_all(data.as_bytes()).unwrap();
    let compressed = encoder.finish().unwrap();

    let mut raw = b"HTTP/1.1 200 OK\r\n\
Content-Encoding: gzip\r\n\
\r\n"
        .to_vec();
    raw.extend_from_slice(&compressed);

    let response = HttpResponse::parse(&raw).expect("Gzip parsed failure");
    assert_eq!(response.body_as_string().unwrap(), data);
}

#[test]
fn test_chunked_and_gzip() {
    let data = "Hello Chunked Gzip World";
    let mut encoder = flate2::write::GzEncoder::new(Vec::new(), flate2::Compression::default());
    encoder.write_all(data.as_bytes()).unwrap();
    let compressed = encoder.finish().unwrap();

    let chunk1 = &compressed[0..10];
    let chunk2 = &compressed[10..];

    let mut raw = b"HTTP/1.1 200 OK\r\n\
Transfer-Encoding: chunked\r\n\
Content-Encoding: gzip\r\n\
\r\n"
        .to_vec();

    raw.extend_from_slice(format!("{:x}\r\n", chunk1.len()).as_bytes());
    raw.extend_from_slice(chunk1);
    raw.extend_from_slice(b"\r\n");

    raw.extend_from_slice(format!("{:x}\r\n", chunk2.len()).as_bytes());
    raw.extend_from_slice(chunk2);
    raw.extend_from_slice(b"\r\n");

    raw.extend_from_slice(b"0\r\n\r\n");

    let response = HttpResponse::parse(&raw).expect("Chunked+Gzip parsed failure");
    assert_eq!(response.body_as_string().unwrap(), data);
}

#[test]
fn test_deflate_and_identity_and_unknown_encoding() {
    let data = b"deflated bytes";
    let mut encoder = flate2::write::DeflateEncoder::new(Vec::new(), flate2::Compression::default());
    encoder.write_all(data).unwrap();
    let mut raw = b"HTTP/1.1 200 OK\r\nContent-Encoding: DEFLATE\r\n\r\n".to_vec();
    raw.extend_from_slice(&encoder.finish().unwrap());
    assert_eq!(HttpResponse::parse(&raw).unwrap().body, data.to_vec());

    let raw = b"HTTP/1.1 200 OK\r\nContent-Encoding: identity\r\n\r\nplain";
    assert_eq!(HttpResponse::parse(raw).unwrap().body, b"plain".to_vec());

    let raw = b"HTTP/1.1 200 OK\r\nContent-Encoding: zstd\r\n\r\nplain";
    assert_eq!(HttpResponse::parse(raw).unwrap_err(), " not supportencoding: zstd");

    let raw = b"HTTP/1.1 200 OK\r\nContent-Encoding: gzip\r\n\r\nnot gzip";
    assert!(HttpResponse::parse(raw).unwrap_err().starts_with("gzip decompression failure: "));
}

#[test]
fn test_header_errors() {
    assert_eq!(HttpResponse::parse(b"HTT").unwrap_err(), "countdatatoo short，unable toincluding headers endmarker");
    assert_eq!(HttpResponse::parse(b"HTTP/1.1 200 OK\r\n").unwrap_err(), "not找 to headers endmarker");
    assert_eq!(HttpResponse::parse(b"\r\n\r\nbody").unwrap_err(), "missingstatus row ");
    assert_eq!(HttpResponse::parse(b"HTTP/1.1\r\n\r\n").unwrap_err(), "invalidstatus row : HTTP/1.1");
    assert_eq!(HttpResponse::parse(b"HTTP/1.1 abc OK\r\n\r\n").unwrap_err(), "invalidstatus code: abc");
    assert_eq!(HttpResponse::parse(b"HTTP/1.1 70000 OK\r\n\r\n").unwrap_err(), "invalidstatus code: 70000");
}

#[test]
fn test_status_line_and_header_details() {
    let raw = b"HTTP/1.0 +204 No Content Here\r\n  X-Trim :  spaced value  \r\nx-trim: last\r\nnocolon\r\n\r\n";
    let r = HttpResponse::parse(raw).unwrap();
    assert_eq!(r.http_version, "HTTP/1.0");
    assert_eq!(r.status_code, 204);
    assert_eq!(r.status_text, "No Content Here");
    assert_eq!(r.headers.len(), 1);
    assert_eq!(r.get_header("x-trim"), Some(&"last".to_string()));
    assert_eq!(r.get_header("X-Trim"), None);
    assert!(r.is_success());

    let r = HttpResponse::parse(b"HTTP/1.1 302\r\n\r\n").unwrap();
    assert_eq!(r.status_text, "");
    assert!(!r.is_success());
}

#[test]
fn test_chunked_errors() {
    let head = b"HTTP/1.1 200 OK\r\nTransfer-Encoding: chunked\r\n\r\n".to_vec();
    let with = |body: &[u8]| {
        let mut raw = head.clone();
        raw.extend_from_slice(body);
        HttpResponse::parse(&raw)
    };
    assert_eq!(with(b"4").unwrap_err(), "Invalid chunked encoding: missing CRLF after size");
    assert_eq!(with(b"zz\r\n").unwrap_err(), "Invalid chunk size 'zz': invalid digit found in string");
    assert_eq!(with(b"\r\n").unwrap_err(), "Invalid chunk size '': cannot parse integer from empty string");
    assert_eq!(with(b"\xff\r\n").unwrap_err(), "Invalid chunk size: not UTF-8");
    assert_eq!(
        with(b"1000000\r\n").unwrap_err(),
        "Chunk size 16777216 exceeds maximum allowed size 10485760 bytes"
    );
    assert_eq!(with(b"5\r\nab").unwrap_err(), "Chunk size 5 exceeds available data");
    assert_eq!(with(b"2\r\nabXY").unwrap_err(), "Invalid chunked encoding: missing CRLF after chunk data");
    assert_eq!(with(b"2;ext=1\r\nab\r\n0\r\n\r\n").unwrap().body, b"ab".to_vec());
    assert_eq!(
        with(b"FFFFFFFFFFFFFFFFF\r\n").unwrap_err(),
        "Invalid chunk size 'FFFFFFFFFFFFFFFFF': number too large to fit in target type"
    );
}

#[test]
fn test_new_response() {
    let r = HttpResponse::new(500);
    assert_eq!(r.status_code, 500);
    assert_eq!(r.http_version, "HTTP/1.1");
    assert!(r.headers.is_empty());
    assert!(r.body.is_empty());
    assert!(!r.is_success());
}
