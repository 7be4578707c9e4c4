//! A minimal single-connection-at-a-time TCP server library.
//!
//! The library holds the request-dispatch pipeline: a pluggable
//! [`handler::RequestHandler`] capability that turns request bytes into
//! response bytes, an HTTP/1.1 request-line parser, and a static-file
//! response builder with its status and MIME tables.  Socket and file
//! I/O stay outside the library; callers hand in the bytes that were
//! read and, for the HTTP handler, the contents of the requested file.

pub mod handler;
pub mod http;
pub mod request;
pub mod server;
pub mod tables;
pub mod text;
