use crude_server::handler::{EchoHandler, RequestHandler};
use crude_server::http::HTTPHandler;
use crude_server::server::{TCPServer, READ_BUFFER_LEN};

#[test]
fn read_buffer_is_1024_bytes() {
    assert_eq!(READ_BUFFER_LEN, 1024);
}

#[test]
fn new_keeps_host_port_and_handler() {
    let server = TCPServer::new("127.0.0.1".to_string(), 8888, EchoHandler);
    assert_eq!(server.host, "127.0.0.1");
    assert_eq!(server.port, 8888);
}

#[test]
fn respond_is_silent_on_empty_read() {
    let server = TCPServer::new("127.0.0.1".to_string(), 8888, EchoHandler);
    assert_eq!(server.respond(b""), None);
}

#[test]
fn respond_answers_through_the_handler() {
    let server = TCPServer::new("127.0.0.1".to_string(), 8888, EchoHandler);
    assert_eq!(server.respond(b"ping").as_deref(), Some(&b"ping"[..]));
}

struct CountingHandler;

impl RequestHandler for CountingHandler {
    fn handle_request(&self, data: &[u8]) -> Vec<u8> {
        vec![data.len() as u8]
    }
}

#[test]
fn respond_works_for_any_handler_impl() {
    let server = TCPServer::new("localhost".to_string(), 80, CountingHandler);
    assert_eq!(server.respond(b"abc").as_deref(), Some(&[3u8][..]));
}

struct HttpNoFs(HTTPHandler);

impl RequestHandler for HttpNoFs {
    fn handle_request(&self, data: &[u8]) -> Vec<u8> {
        self.0.handle_request(data, None)
    }
}

#[test]
fn http_handler_drives_the_server_type() {
    let server = TCPServer::new("127.0.0.1".to_string(), 8888, HttpNoFs(HTTPHandler::new()));
    let response = server.respond(b"GET /x HTTP/1.1\r\n\r\n").unwrap();
    assert!(response.starts_with(b"HTTP/1.1 404 Not Found\r\n"));
}
