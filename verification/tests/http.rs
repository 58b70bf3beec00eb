use easyofd_signature::http::{build_http_request_header, http_response_body, parse_http_url};
use easyofd_signature::ofd_error::OfdError;

fn conversion_message<T: std::fmt::Debug>(r: Result<T, OfdError>) -> String {
    match r {
        Err(OfdError::Conversion(m)) => m,
        other => panic!("expected a conversion error, got {:?}", other),
    }
}

#[test]
fn url_with_port_and_path() {
    let (host, port, path) = parse_http_url("http://ocsp.example.com:8080/check/now").unwrap();
    assert_eq!(host, "ocsp.example.com");
    assert_eq!(port, 8080);
    assert_eq!(path, "/check/now");
}

#[test]
fn url_defaults_to_port_80_and_root_path() {
    let (host, port, path) = parse_http_url("http://ocsp.example.com").unwrap();
    assert_eq!(host, "ocsp.example.com");
    assert_eq!(port, 80);
    assert_eq!(path, "/");
}

#[test]
fn url_with_unparsable_port_falls_back_to_80() {
    let (host, port, path) = parse_http_url("http://h:99999/x").unwrap();
    assert_eq!(host, "h");
    assert_eq!(port, 80);
    assert_eq!(path, "/x");
    let (host, port, _) = parse_http_url("http://h:abc").unwrap();
    assert_eq!(host, "h");
    assert_eq!(port, 80);
}

#[test]
fn url_port_split_at_last_colon() {
    let (host, port, _) = parse_http_url("http://a:b:81/").unwrap();
    assert_eq!(host, "a:b");
    assert_eq!(port, 81);
}

#[test]
fn url_of_other_scheme_is_refused() {
    let m = conversion_message(parse_http_url("https://ocsp.example.com/"));
    assert_eq!(m, "OCSP URL must be http:// (https://ocsp.example.com/)");
    let m = conversion_message(parse_http_url("http:/"));
    assert_eq!(m, "OCSP URL must be http:// (http:/)");
}

#[test]
fn request_header_text() {
    let h = build_http_request_header("/ocsp", "ca.example", "application/ocsp-request", 123);
    assert_eq!(
        h,
        "POST /ocsp HTTP/1.1\r\nHost: ca.example\r\nContent-Type: application/ocsp-request\r\nContent-Length: 123\r\nConnection: close\r\n\r\n"
    );
    let h = build_http_request_header("/", "h", "t", 0);
    assert!(h.contains("Content-Length: 0\r\n"));
}

#[test]
fn response_body_after_blank_line() {
    let r = b"HTTP/1.1 200 OK\r\nContent-Type: x\r\n\r\n\x30\x03\x0a\x01\x00";
    assert_eq!(http_response_body(r).unwrap(), vec![0x30, 0x03, 0x0a, 0x01, 0x00]);
    let r = b"HTTP/1.0 200 OK\r\n\r\n";
    assert_eq!(http_response_body(r).unwrap(), Vec::<u8>::new());
}

#[test]
fn response_without_header_end_is_refused() {
    let m = conversion_message(http_response_body(b"HTTP/1.1 200 OK\r\n"));
    assert_eq!(m, "OCSP: no HTTP header end");
}

#[test]
fn response_with_other_status_is_refused() {
    let m = conversion_message(http_response_body(b"HTTP/1.1 404 Not Found\r\nX: y\r\n\r\nbody"));
    assert_eq!(m, "OCSP HTTP: HTTP/1.1 404 Not Found");
}

#[test]
fn response_with_non_utf8_header_is_refused() {
    let m = conversion_message(http_response_body(b"HTTP/1.1 200 OK\xff\r\n\r\nbody"));
    assert!(m.starts_with("OCSP headers: "));
}
