//! Requests tagged with their provenance, and the responses the core reacts
//! to.
//!
//! The origin tag is purely type-level: a request authored by a client
//! process and a request trusted by the daemon hold the same payload bytes,
//! but only [`ClientRequest::reinterpret`] turns the one into the other, so
//! no code path can accept a client-constructed value where a daemon-trusted
//! one is expected without going through that explicit step.

use vstd::prelude::*;

verus! {

/// A request as authored by a short-lived client process. Its payload is
/// opaque to this core.
#[derive(Debug, Clone, PartialEq, Eq)]
pub struct ClientRequest {
    pub payload: Vec<u8>,
}

/// A request the daemon trusts: either read off the wire by the accept loop
/// or produced by [`ClientRequest::reinterpret`] on the sending side.
#[derive(Debug, Clone, PartialEq, Eq)]
pub struct DaemonRequest {
    pub payload: Vec<u8>,
}

impl ClientRequest {
    /// The only sanctioned way to produce a daemon-origin request from
    /// client-origin data. The payload is carried over unchanged.
    pub fn reinterpret(self) -> (r: DaemonRequest)
        ensures
            r.payload@ == self.payload@,
    {
        DaemonRequest { payload: self.payload }
    }
}

/// A response produced by the external handler. `Shutdown` is the one
/// variant this core recognizes; every other response is opaque payload
/// bytes delivered through the handler's own session mechanism.
#[derive(Debug, Clone, PartialEq, Eq)]
pub enum Response {
    /// Orders the daemon to stop: the processor signals the accept loop and
    /// stops draining.
    Shutdown,
    /// Any handler-defined response; its meaning is outside this core.
    Other(Vec<u8>),
}

impl Response {
    /// Whether this response is the shutdown sentinel.
    pub open spec fn is_shutdown_spec(&self) -> bool {
        matches!(self, Response::Shutdown)
    }

    /// Whether this response is the shutdown sentinel.
    pub fn is_shutdown(&self) -> (r: bool)
        ensures
            r == self.is_shutdown_spec(),
    {
        matches!(self, Response::Shutdown)
    }
}

} // verus!
