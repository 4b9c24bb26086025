//! The proxy server's one piece of shared state: the bound port number.
//! It starts at a sentinel meaning "not yet bound" and is published exactly
//! once, when the listener has its port; readers may see the sentinel while
//! the server is still starting and must treat it as a valid, if premature,
//! value.

use vstd::prelude::*;

verus! {

/// A single-writer cell for the proxy's port number. Port `0` is the
/// sentinel: the listener has not bound yet.
pub struct ProxyPort {
    pub port: u16,
}

impl ProxyPort {
    /// The listener has bound and the real port is visible.
    pub open spec fn is_bound(self) -> bool {
        self.port != 0
    }

    /// A fresh cell, still at the sentinel.
    pub fn new() -> (r: Self)
        ensures
            r.port == 0,
            !r.is_bound(),
    {
        ProxyPort { port: 0 }
    }

    /// Publish the bound port, once: only a cell still at the sentinel may
    /// be written, and an OS-assigned port is never `0`.
    pub fn publish(&mut self, p: u16)
        requires
            !old(self).is_bound(),
            p != 0,
        ensures
            final(self).port == p,
            final(self).is_bound(),
    {
        self.port = p;
    }

    /// The current port number; the sentinel `0` until the server binds.
    pub fn current(&self) -> (r: u16)
        ensures
            r == self.port,
    {
        self.port
    }
}

} // verus!
