//! The outcome of a completed exchange.

use vstd::prelude::*;

verus! {

/// What came back from one completed exchange: the path it was sent to, the
/// status code, the response headers, and the body bytes.  Immutable once
/// constructed.
pub struct Response {
    pub request_path: String,
    pub status: u16,
    pub headers: Vec<(String, String)>,
    pub body: Vec<u8>,
}

impl Response {
    /// Capture a completed exchange.
    pub fn new(request_path: String, status: u16, headers: Vec<(String, String)>, body: Vec<u8>) -> (r:
        Response)
        ensures
            r.request_path@ == request_path@,
            r.status == status,
            r.headers@ == headers@,
            r.body@ == body@,
    {
        Response { request_path, status, headers, body }
    }

    /// The status code of the response.
    pub fn status_code(&self) -> (r: u16)
        ensures
            r == self.status,
    {
        self.status
    }

    /// The path the request was sent to.
    pub fn request_path(&self) -> (r: &String)
        ensures
            r@ == self.request_path@,
    {
        &self.request_path
    }

    /// The response headers, as (name, value) pairs in wire order.
    pub fn headers(&self) -> (r: &Vec<(String, String)>)
        ensures
            r@ == self.headers@,
    {
        &self.headers
    }

    /// The raw bytes of the response body.
    pub fn body_bytes(&self) -> (r: &Vec<u8>)
        ensures
            r@ == self.body@,
    {
        &self.body
    }
}

} // verus!
