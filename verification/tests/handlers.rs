use crude_server::handler::{EchoHandler, RequestHandler};
use crude_server::http::HTTPHandler;
use crude_server::request::HTTPRequest;

fn contains(haystack: &[u8], needle: &[u8]) -> bool {
    haystack.windows(needle.len()).any(|w| w == needle)
}

fn body_of(response: &[u8]) -> &[u8] {
    let sep = response
        .windows(4)
        .position(|w| w == b"\r\n\r\n")
        .expect("response has no blank line");
    &response[sep + 4..]
}

#[test]
fn echo_returns_input_unchanged() {
    let handler = EchoHandler;
    let data = b"any bytes at all \x00\xff\x80 and more";
    assert!(data.len() < 1024);
    assert_eq!(handler.handle_request(data), data);
}

#[test]
fn echo_returns_empty_for_empty() {
    let handler = EchoHandler;
    assert_eq!(handler.handle_request(b""), b"");
}

#[test]
fn get_existing_file_is_served() {
    let handler = HTTPHandler::new();
    let content = b"<html><body>hello</body></html>".to_vec();
    let response = handler.handle_request(
        b"GET /index.html HTTP/1.1\r\n\r\n",
        Some(content.clone()),
    );
    assert!(response.starts_with(b"HTTP/1.1 200 OK\r\n"));
    assert!(contains(&response, b"Content-Type: text/html\r\n"));
    assert!(contains(&response, b"Server: CrudeServer\r\n"));
    assert_eq!(body_of(&response), &content[..]);
}

#[test]
fn get_sets_content_type_from_extension() {
    let handler = HTTPHandler::new();
    let content = b"console.log(1);".to_vec();
    let response = handler.handle_request(b"GET /app.js HTTP/1.1\r\n\r\n", Some(content.clone()));
    assert!(response.starts_with(b"HTTP/1.1 200 OK\r\n"));
    assert!(contains(&response, b"Content-Type: application/javascript\r\n"));
    assert!(!contains(&response, b"Content-Type: text/html\r\n"));
    assert_eq!(body_of(&response), &content[..]);
}

#[test]
fn get_missing_file_is_404() {
    let handler = HTTPHandler::new();
    let response = handler.handle_request(b"GET /absent.html HTTP/1.1\r\n\r\n", None);
    assert!(response.starts_with(b"HTTP/1.1 404 Not Found\r\n"));
    assert!(contains(&response, b"Server: CrudeServer\r\n"));
    assert!(contains(&response, b"Content-Type: text/html\r\n"));
    assert_eq!(body_of(&response), b"<h1>404 Not Found</h1>");
}

#[test]
fn get_without_uri_is_404() {
    let handler = HTTPHandler::new();
    let response = handler.handle_request(b"GET\r\n\r\n", None);
    assert!(response.starts_with(b"HTTP/1.1 404 Not Found\r\n"));
    assert_eq!(body_of(&response), b"<h1>404 Not Found</h1>");
}

#[test]
fn get_root_uri_is_404() {
    let handler = HTTPHandler::new();
    let response = handler.handle_request(b"GET / HTTP/1.1\r\n\r\n", None);
    assert!(response.starts_with(b"HTTP/1.1 404 Not Found\r\n"));
}

#[test]
fn post_is_not_implemented() {
    let handler = HTTPHandler::new();
    let response = handler.handle_request(b"POST /x HTTP/1.1\r\n\r\n", None);
    assert!(response.starts_with(b"HTTP/1.1 501 Not Implemented\r\n"));
    assert!(contains(&response, b"Server: CrudeServer\r\n"));
    assert!(contains(&response, b"Content-Type: text/html\r\n"));
    assert_eq!(body_of(&response), b"<h1>501 Not Implemented</h1>");
}

#[test]
fn lowercase_get_is_not_implemented() {
    let handler = HTTPHandler::new();
    let response = handler.handle_request(b"get /x HTTP/1.1\r\n\r\n", None);
    assert!(response.starts_with(b"HTTP/1.1 501 Not Implemented\r\n"));
}

#[test]
fn empty_request_line_is_not_implemented() {
    let handler = HTTPHandler::new();
    let response = handler.handle_request(b"\r\nGET /x HTTP/1.1\r\n", None);
    assert!(response.starts_with(b"HTTP/1.1 501 Not Implemented\r\n"));
    assert_eq!(body_of(&response), b"<h1>501 Not Implemented</h1>");
}

#[test]
fn unparseable_bytes_are_not_implemented() {
    let handler = HTTPHandler::new();
    let response = handler.handle_request(b"\xff\xfe\xfd", None);
    assert!(response.starts_with(b"HTTP/1.1 501 Not Implemented\r\n"));
}

#[test]
fn get_ignores_handed_content_for_empty_path() {
    // Even when the caller hands in file contents, a GET whose URI names
    // the empty path falls back to 404.
    let handler = HTTPHandler::new();
    let response = handler.handle_request(b"GET / HTTP/1.1\r\n\r\n", Some(b"x".to_vec()));
    assert!(response.starts_with(b"HTTP/1.1 404 Not Found\r\n"));
}

#[test]
fn requested_file_for_get() {
    let handler = HTTPHandler::new();
    let request = HTTPRequest::new(b"GET /index.html HTTP/1.1\r\n\r\n");
    assert_eq!(handler.requested_file(&request).as_deref(), Some("index.html"));
}

#[test]
fn requested_file_strips_one_slash_only() {
    let handler = HTTPHandler::new();
    let request = HTTPRequest::new(b"GET //twice HTTP/1.1\r\n\r\n");
    assert_eq!(handler.requested_file(&request).as_deref(), Some("/twice"));
}

#[test]
fn requested_file_none_for_other_methods() {
    let handler = HTTPHandler::new();
    let request = HTTPRequest::new(b"POST /index.html HTTP/1.1\r\n\r\n");
    assert_eq!(handler.requested_file(&request), None);
}

#[test]
fn requested_file_none_for_empty_path() {
    let handler = HTTPHandler::new();
    let request = HTTPRequest::new(b"GET / HTTP/1.1\r\n\r\n");
    assert_eq!(handler.requested_file(&request), None);
    let bare = HTTPRequest::new(b"GET\r\n");
    assert_eq!(handler.requested_file(&bare), None);
}

#[test]
fn handle_get_serves_handed_bytes() {
    let handler = HTTPHandler::new();
    let request = HTTPRequest::new(b"GET /pic.png HTTP/1.1\r\n\r\n");
    let content = vec![0x89u8, 0x50, 0x4e, 0x47];
    let response = handler.handle_GET(&request, Some(content.clone()));
    assert!(response.starts_with(b"HTTP/1.1 200 OK\r\n"));
    assert!(contains(&response, b"Content-Type: image/png\r\n"));
    assert_eq!(body_of(&response), &content[..]);
}

#[test]
fn http_501_handler_builds_the_fallback() {
    let handler = HTTPHandler::new();
    let request = HTTPRequest::new(b"PUT /x HTTP/1.1\r\n\r\n");
    let response = handler.HTTP_501_handler(&request);
    assert!(response.starts_with(b"HTTP/1.1 501 Not Implemented\r\n"));
    assert_eq!(body_of(&response), b"<h1>501 Not Implemented</h1>");
}
