//! The answer of the healthcheck endpoint: any request gets 200 while the
//! application is healthy and 503 otherwise. An application starts unhealthy.
use vstd::prelude::*;

verus! {

/// The response of a healthy application.
pub const RESPONSE_OK: &'static str =
    "HTTP/1.1 200 OK\r\ncontent-type: text/plain\r\ncontent-length: 2\r\nconnection: close\r\n\r\nOK";

/// The response of an application that is not healthy.
pub const RESPONSE_ERROR: &'static str =
    "HTTP/1.1 503 Service Unavailable\r\ncontent-type: text/plain\r\ncontent-length: 5\r\nconnection: close\r\n\r\nERROR";

/// Whether the application is healthy. There is one for each application, and it is
/// not copied: what was said last holds for whoever asks.
#[derive(Debug, PartialEq, Eq, Structural)]
pub struct HealthState {
    pub healthy: bool,
}

impl Default for HealthState {
    fn default() -> (h: Self)
        ensures
            !h.healthy,
    {
        HealthState { healthy: false }
    }
}

impl HealthState {
    /// Says whether the application is healthy.
    pub fn set_healthy(&mut self, healthy: bool)
        ensures
            final(self).healthy == healthy,
    {
        self.healthy = healthy;
    }

    /// Whether the application is healthy.
    pub fn is_healthy(&self) -> (r: bool)
        ensures
            r == self.healthy,
    {
        self.healthy
    }

    /// The response to any request.
    pub fn response(&self) -> (r: &'static str)
        ensures
            r@ == (if self.healthy {
                RESPONSE_OK@
            } else {
                RESPONSE_ERROR@
            }),
    {
        if self.healthy {
            RESPONSE_OK
        } else {
            RESPONSE_ERROR
        }
    }
}

} // verus!
