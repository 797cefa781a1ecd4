//! Error kinds of the client.
//!
//! Every fallible operation of this crate returns one of these explicitly;
//! panicking on the first failure is a policy a caller may layer on top.

use vstd::prelude::*;

verus! {

/// Why an operation of the client failed.
#[derive(Clone, Copy, Debug, PartialEq, Eq, Structural)]
pub enum Error {
    /// Exclusive access to the shared session state could not be acquired.
    LockAcquisition,
    /// A `Set-Cookie` header received from the application could not be
    /// parsed as a cookie.
    CookieParse,
    /// A header value holds characters that cannot stand on the wire.
    HeaderEncoding,
    /// The request could not be assembled: the resolved URL is not a valid
    /// URI, or the body could not be encoded.
    RequestAssembly,
    /// The exchange with the application failed.
    Transport,
}

} // verus!
