//! The server shell: the bound address, the handler it dispatches through,
//! and the decision made for one connection.  Binding, accepting and stream
//! I/O stay with the caller, which reads at most [`READ_BUFFER_LEN`] bytes,
//! asks [`TCPServer::respond`] for the response, and writes it back before
//! accepting the next connection.

use vstd::prelude::*;

use crate::handler::RequestHandler;

verus! {

/// How many bytes one connection read returns at most: longer requests
/// reach the parser truncated to this many bytes.
pub const READ_BUFFER_LEN: usize = 1024;

/// A server bound to one address, serving connections one at a time
/// through its request handler.
pub struct TCPServer<T: RequestHandler> {
    pub host: String,
    pub port: u16,
    pub handler: T,
}

impl<T: RequestHandler> TCPServer<T> {
    /// A server for `host:port` dispatching through `handler`.
    pub fn new(host: String, port: u16, handler: T) -> (r: Self)
        ensures
            r.host == host,
            r.port == port,
            r.handler == handler,
    {
        TCPServer { host, port, handler }
    }

    /// The decision of one connection: no response when the read returned
    /// no bytes, the handler's response to the bytes read otherwise.
    pub fn respond(&self, data: &[u8]) -> (r: Option<Vec<u8>>)
        ensures
            r is Some <==> data@.len() > 0,
            r matches Some(v) ==> v@ == self.handler.response_model(data@),
    {
        if data.len() > 0 {
            Some(self.handler.handle_request(data))
        } else {
            None
        }
    }
}

} // verus!
