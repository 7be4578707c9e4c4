//! The request-handler capability: anything that transforms the bytes of one
//! request into the bytes of one response.

use vstd::prelude::*;

use vstd::slice::slice_to_vec;

verus! {

/// The capability the connection handler dispatches through: transform the
/// bytes read from a connection into the bytes written back.
pub trait RequestHandler {
    /// The response this handler gives to one request, as a function of the
    /// bytes that were read.  The default names the identity; a handler
    /// with another behaviour overrides it, and its `handle_request` is
    /// held to it.
    open spec fn response_model(&self, data: Seq<u8>) -> Seq<u8> {
        data
    }

    /// The response to one request: exactly this handler's `response_model`
    /// of the bytes read.
    fn handle_request(&self, data: &[u8]) -> (r: Vec<u8>)
        ensures
            r@ == self.response_model(data@),
    ;
}

/// The identity handler.
pub struct EchoHandler;

impl RequestHandler for EchoHandler {
    /// The response is the request itself.
    open spec fn response_model(&self, data: Seq<u8>) -> Seq<u8> {
        data
    }

    /// Returns its input unchanged: for every byte sequence the returned
    /// bytes equal the input exactly.
    fn handle_request(&self, data: &[u8]) -> (r: Vec<u8>)
        ensures
            r@ == data@,
    {
        slice_to_vec(data)
    }
}

} // verus!
