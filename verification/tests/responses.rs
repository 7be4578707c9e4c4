use crude_server::http::HTTPHandler;

fn contains(haystack: &[u8], needle: &[u8]) -> bool {
    haystack.windows(needle.len()).any(|w| w == needle)
}

#[test]
fn response_line_200() {
    let handler = HTTPHandler::new();
    assert_eq!(handler.response_line(200), b"HTTP/1.1 200 OK\r\n");
}

#[test]
fn response_line_404() {
    let handler = HTTPHandler::new();
    assert_eq!(handler.response_line(404), b"HTTP/1.1 404 Not Found\r\n");
}

#[test]
fn response_line_501() {
    let handler = HTTPHandler::new();
    assert_eq!(handler.response_line(501), b"HTTP/1.1 501 Not Implemented\r\n");
}

#[test]
fn response_line_unknown_code() {
    let handler = HTTPHandler::new();
    assert_eq!(handler.response_line(999), b"HTTP/1.1 999 Unknown\r\n");
}

#[test]
fn default_headers_are_emitted() {
    let handler = HTTPHandler::new();
    let block = handler.response_headers(None);
    assert!(contains(&block, b"Server: CrudeServer\r\n"));
    assert!(contains(&block, b"Content-Type: text/html\r\n"));
}

#[test]
fn extra_header_overrides_default() {
    let handler = HTTPHandler::new();
    let extra = vec![("Content-Type".to_string(), "image/png".to_string())];
    let block = handler.response_headers(Some(extra));
    assert!(contains(&block, b"Content-Type: image/png\r\n"));
    assert!(!contains(&block, b"Content-Type: text/html\r\n"));
    assert!(contains(&block, b"Server: CrudeServer\r\n"));
}

#[test]
fn extra_header_with_fresh_name_is_added() {
    let handler = HTTPHandler::new();
    let extra = vec![("X-Custom".to_string(), "yes".to_string())];
    let block = handler.response_headers(Some(extra));
    assert!(contains(&block, b"Server: CrudeServer\r\n"));
    assert!(contains(&block, b"Content-Type: text/html\r\n"));
    assert!(contains(&block, b"X-Custom: yes\r\n"));
}

#[test]
fn mime_type_known_extensions() {
    let handler = HTTPHandler::new();
    assert_eq!(handler.get_mime_type("index.html"), "text/html");
    assert_eq!(handler.get_mime_type("page.htm"), "text/html");
    assert_eq!(handler.get_mime_type("style.css"), "text/css");
    assert_eq!(handler.get_mime_type("app.js"), "application/javascript");
    assert_eq!(handler.get_mime_type("photo.jpg"), "image/jpeg");
    assert_eq!(handler.get_mime_type("photo.jpeg"), "image/jpeg");
    assert_eq!(handler.get_mime_type("logo.png"), "image/png");
    assert_eq!(handler.get_mime_type("anim.gif"), "image/gif");
    assert_eq!(handler.get_mime_type("icon.svg"), "image/svg+xml");
    assert_eq!(handler.get_mime_type("favicon.ico"), "image/x-icon");
}

#[test]
fn mime_type_uses_last_extension_of_last_component() {
    let handler = HTTPHandler::new();
    assert_eq!(handler.get_mime_type("a/b/c.js"), "application/javascript");
    assert_eq!(handler.get_mime_type("archive.tar.gz"), "text/html");
    assert_eq!(handler.get_mime_type("dir.css/file.png"), "image/png");
}

#[test]
fn mime_type_defaults_to_text_html() {
    let handler = HTTPHandler::new();
    assert_eq!(handler.get_mime_type("noext"), "text/html");
    assert_eq!(handler.get_mime_type(""), "text/html");
    assert_eq!(handler.get_mime_type(".hidden"), "text/html");
    assert_eq!(handler.get_mime_type("trailing."), "text/html");
    assert_eq!(handler.get_mime_type("UPPER.HTML"), "text/html");
    assert_eq!(handler.get_mime_type("odd.webp"), "text/html");
}
