use mitm_capture::capture::StreamDirection;
use mitm_capture::http::{HttpData, HttpMethod, HttpStatus, HttpVersion};
use mitm_capture::header::HttpHeader;

#[test]
fn client_head_parses_fields() {
    let raw = b"GET /x HTTP/1.1\r\nHost: a.com\r\nX: y: z\r\n\r\n".to_vec();
    let data = HttpData::from_bytes(raw, StreamDirection::ClientToServer).unwrap();
    let h = data.header();
    assert_eq!(h.method().as_slice(), b"GET");
    assert_eq!(h.uri().as_slice(), b"/x");
    assert_eq!(h.version(), HttpVersion::Http11);
    assert_eq!(h.field_value(b"Host").unwrap().as_slice(), b"a.com");
    assert_eq!(h.field_value(b"X").unwrap().as_slice(), b"y: z");
    assert_eq!(data.body().bytes().len(), 0);
}

#[test]
fn unknown_version_token_is_error() {
    assert!(HttpVersion::from_stream_raw(b"HTTP/0.9").is_err());
    let raw = b"GET /x HTTP/0.9\r\nHost: a.com\r\n\r\n".to_vec();
    assert!(HttpData::from_bytes(raw, StreamDirection::ClientToServer).is_err());
}

#[test]
fn known_versions_parse() {
    assert_eq!(HttpVersion::from_stream_raw(b"HTTP/1.0").unwrap(), HttpVersion::Http10);
    assert_eq!(HttpVersion::from_stream_raw(b"HTTP/1.1").unwrap(), HttpVersion::Http11);
    assert_eq!(HttpVersion::from_stream_raw(b"HTTP/2.0").unwrap(), HttpVersion::Http20);
    assert_eq!(HttpVersion::from_stream_raw(b"HTTP/3.0").unwrap(), HttpVersion::Http30);
    assert!(HttpVersion::from_stream_raw(b"http/1.1").is_err());
    assert!(HttpVersion::from_stream_raw(b"").is_err());
}

#[test]
fn status_codes_parse() {
    assert_eq!(HttpStatus::from_stream_raw(b"200").unwrap(), HttpStatus::OK);
    assert_eq!(HttpStatus::from_stream_raw(b"206").unwrap(), HttpStatus::PartialContent);
    assert_eq!(HttpStatus::from_stream_raw(b"304").unwrap(), HttpStatus::NotModified);
    assert!(HttpStatus::from_stream_raw(b"404").is_err());
    assert!(HttpStatus::from_stream_raw(b"abc").is_err());
    assert!(HttpStatus::from_stream_raw(b"").is_err());
    assert!(HttpStatus::from_stream_raw(b"-200").is_err());
    assert!(HttpStatus::from_stream_raw(b"20x").is_err());
    assert!(HttpStatus::from_stream_raw(b"99999999999999999999").is_err());
    // the standard integer parser accepts a plus sign and leading zeros
    assert_eq!(HttpStatus::from_stream_raw(b"+200").unwrap(), HttpStatus::OK);
    assert_eq!(HttpStatus::from_stream_raw(b"000304").unwrap(), HttpStatus::NotModified);
}

#[test]
fn invalid_utf8_head_is_error() {
    let mut raw = b"GET /x HTTP/1.1\r\nHost: ".to_vec();
    raw.push(0xff);
    raw.extend_from_slice(b"\r\n");
    let e = HttpHeader::from_client(raw).err().unwrap();
    assert_eq!(e.to_string(), "head is not valid UTF-8");

    let mut raw = b"HTTP/1.1 200 OK\r\nX: ".to_vec();
    raw.push(0xff);
    let e = HttpHeader::from_server(raw).err().unwrap();
    assert_eq!(e.to_string(), "head is not valid UTF-8");
}

#[test]
fn partial_content_status_parses() {
    let raw = b"HTTP/1.1 206 Partial Content\r\n\r\nslice".to_vec();
    let data = HttpData::from_bytes(raw, StreamDirection::ServerToClient).unwrap();
    assert_eq!(data.header().status(), HttpStatus::PartialContent);
}

#[test]
fn head_parse_error_is_propagated_unchanged() {
    let raw = b"GET /x HTTP/0.9\r\n\r\n".to_vec();
    let e = HttpData::from_bytes(raw, StreamDirection::ClientToServer).err().unwrap();
    assert_eq!(e.to_string(), "unknown HTTP version token");
    let raw = b"no boundary here".to_vec();
    let e = HttpData::from_bytes(raw, StreamDirection::ClientToServer).err().unwrap();
    assert_eq!(e.to_string(), "missing head/body boundary");
}

#[test]
fn missing_boundary_is_error() {
    let raw = b"GET /x HTTP/1.1\r\nHost: a.com".to_vec();
    assert!(HttpData::from_bytes(raw, StreamDirection::ClientToServer).is_err());
}

#[test]
fn server_head_parses() {
    let raw = b"HTTP/1.1 200 OK\r\nContent-Type: text/html\r\n\r\nhello".to_vec();
    let data = HttpData::from_bytes(raw, StreamDirection::ServerToClient).unwrap();
    let h = data.header();
    assert_eq!(h.version(), HttpVersion::Http11);
    assert_eq!(h.status(), HttpStatus::OK);
    assert_eq!(h.field_value(b"Content-Type").unwrap().as_slice(), b"text/html");
    assert_eq!(data.body().bytes().as_slice(), b"hello");
}

#[test]
fn server_unknown_status_is_error() {
    let raw = b"HTTP/1.1 404 Not Found\r\n\r\n".to_vec();
    assert!(HttpData::from_bytes(raw, StreamDirection::ServerToClient).is_err());
}

#[test]
fn duplicate_field_last_wins() {
    let raw = b"GET / HTTP/1.1\r\nA: 1\r\nA: 2\r\n\r\n".to_vec();
    let data = HttpData::from_bytes(raw, StreamDirection::ClientToServer).unwrap();
    assert_eq!(data.header().field_value(b"A").unwrap().as_slice(), b"2");
}

#[test]
fn field_line_without_separator_has_empty_value() {
    let raw = b"GET / HTTP/1.1\r\nWeird\r\n\r\n".to_vec();
    let data = HttpData::from_bytes(raw, StreamDirection::ClientToServer).unwrap();
    assert_eq!(data.header().field_value(b"Weird").unwrap().as_slice(), b"");
    assert!(data.header().field_value(b"Missing").is_none());
}

#[test]
fn request_line_needs_three_tokens() {
    let raw = b"GET /only-two\r\n\r\n".to_vec();
    assert!(HttpData::from_bytes(raw, StreamDirection::ClientToServer).is_err());
}

#[test]
fn from_client_and_from_server_direct() {
    let head = b"POST /submit HTTP/1.0\r\nHost: b.org\r\n".to_vec();
    let h = HttpHeader::from_client(head).unwrap();
    assert_eq!(h.method().as_slice(), b"POST");
    assert_eq!(h.uri().as_slice(), b"/submit");
    assert_eq!(h.version(), HttpVersion::Http10);
    assert_eq!(h.field_value(b"Host").unwrap().as_slice(), b"b.org");

    let head = b"HTTP/1.1 304 Not Modified\r\n".to_vec();
    let h = HttpHeader::from_server(head).unwrap();
    assert_eq!(h.status(), HttpStatus::NotModified);
}

#[test]
fn new_header_is_empty() {
    let h = HttpHeader::new();
    assert_eq!(h.method().len(), 0);
    assert_eq!(h.uri().len(), 0);
    assert_eq!(h.version(), HttpVersion::Http10);
    assert_eq!(h.status(), HttpStatus::OK);
    assert_eq!(h.keys().len(), 0);
}

#[test]
fn method_bytes_lists_the_nine_tokens() {
    let toks = HttpMethod::method_bytes();
    assert_eq!(toks.len(), 9);
    assert_eq!(toks[0].as_slice(), b"GET");
    assert_eq!(toks[4].as_slice(), b"CONNECT");
    assert_eq!(toks[8].as_slice(), b"DELETE");
}
