use crude_server::request::HTTPRequest;

#[test]
fn parses_full_request_line() {
    let request = HTTPRequest::new(b"GET /index.html HTTP/1.1\r\n\r\n");
    assert_eq!(request.method.as_deref(), Some("GET"));
    assert_eq!(request.uri.as_deref(), Some("/index.html"));
    assert_eq!(request.http_version, "HTTP/1.1");
}

#[test]
fn missing_words_leave_fields_unset() {
    let request = HTTPRequest::new(b"GET\r\n");
    assert_eq!(request.method.as_deref(), Some("GET"));
    assert_eq!(request.uri, None);
    assert_eq!(request.http_version, "1.1");
}

#[test]
fn method_and_uri_without_version() {
    let request = HTTPRequest::new(b"HEAD /x\r\n");
    assert_eq!(request.method.as_deref(), Some("HEAD"));
    assert_eq!(request.uri.as_deref(), Some("/x"));
    assert_eq!(request.http_version, "1.1");
}

#[test]
fn empty_buffer_leaves_method_unset() {
    let request = HTTPRequest::new(b"");
    assert_eq!(request.method, None);
    assert_eq!(request.uri, None);
    assert_eq!(request.http_version, "1.1");
}

#[test]
fn request_without_crlf_is_one_line() {
    let request = HTTPRequest::new(b"POST /submit");
    assert_eq!(request.method.as_deref(), Some("POST"));
    assert_eq!(request.uri.as_deref(), Some("/submit"));
    assert_eq!(request.http_version, "1.1");
}

#[test]
fn empty_request_line_leaves_method_unset() {
    let request = HTTPRequest::new(b"\r\nGET /x HTTP/1.1\r\n");
    assert_eq!(request.method, None);
    assert_eq!(request.uri, None);
    assert_eq!(request.http_version, "1.1");
}

#[test]
fn doubled_space_yields_empty_uri_word() {
    let request = HTTPRequest::new(b"GET  /x HTTP/1.0\r\n");
    assert_eq!(request.method.as_deref(), Some("GET"));
    assert_eq!(request.uri.as_deref(), Some(""));
    assert_eq!(request.http_version, "/x");
}

#[test]
fn only_first_line_is_read() {
    let request = HTTPRequest::new(b"GET /a HTTP/1.1\r\nHost: example\r\nPOST /b\r\n\r\n");
    assert_eq!(request.method.as_deref(), Some("GET"));
    assert_eq!(request.uri.as_deref(), Some("/a"));
    assert_eq!(request.http_version, "HTTP/1.1");
}

#[test]
fn invalid_utf8_becomes_replacement_characters() {
    let request = HTTPRequest::new(b"G\xffET /x HTTP/1.1\r\n");
    assert_eq!(request.method.as_deref(), Some("G\u{FFFD}ET"));
    assert_eq!(request.uri.as_deref(), Some("/x"));
}

#[test]
fn truncated_buffer_parses_first_1024_bytes() {
    // A request longer than the read buffer, cut at the buffer size right
    // through a multi-byte character: the parser sees the first 1024 bytes
    // only and must neither fail nor panic.
    let mut data: Vec<u8> = Vec::new();
    data.extend_from_slice(b"GET /long HTTP/1.1\r\nX-Pad: ");
    while data.len() < 1022 {
        data.push(b'a');
    }
    data.truncate(1022);
    // A three-byte character starting at offset 1022 is split by the cut.
    data.extend_from_slice("\u{20AC}".as_bytes());
    data.extend_from_slice(&[b'b'; 500]);
    assert!(data.len() > 1024);
    let request = HTTPRequest::new(&data[0..1024]);
    assert_eq!(request.method.as_deref(), Some("GET"));
    assert_eq!(request.uri.as_deref(), Some("/long"));
    assert_eq!(request.http_version, "HTTP/1.1");
}

#[test]
fn parse_keeps_fields_on_empty_request_line() {
    let mut request = HTTPRequest::new(b"GET /old HTTP/1.0\r\n");
    request.parse(b"");
    assert_eq!(request.method.as_deref(), Some("GET"));
    assert_eq!(request.uri.as_deref(), Some("/old"));
    assert_eq!(request.http_version, "HTTP/1.0");
}

#[test]
fn parse_overwrites_only_present_words() {
    let mut request = HTTPRequest::new(b"GET /old HTTP/1.0\r\n");
    request.parse(b"PUT\r\n");
    assert_eq!(request.method.as_deref(), Some("PUT"));
    assert_eq!(request.uri.as_deref(), Some("/old"));
    assert_eq!(request.http_version, "HTTP/1.0");
}

#[test]
fn parse_text_splits_decoded_text() {
    let mut request = HTTPRequest::new(b"");
    request.parse_text("GET /x HTTP/1.1\r\nrest");
    assert_eq!(request.method.as_deref(), Some("GET"));
    assert_eq!(request.uri.as_deref(), Some("/x"));
    assert_eq!(request.http_version, "HTTP/1.1");
}
