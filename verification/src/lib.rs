//! Client-side session layer that carries the CQL binary protocol inside a
//! WebSocket tunnel: an envelope codec, a handshake/query state machine, the
//! reader/writer pump decisions, and a certificate policy that relaxes only
//! the hostname check.

use vstd::prelude::*;

pub mod connect;
pub mod engine;
pub mod envelope;
pub mod pump;
pub mod rows;
pub mod trust;
pub mod wire;

verus! {

/// The fatal error classes of the session layer.
#[derive(Clone, Copy, Debug, PartialEq, Eq, Structural)]
pub enum SessionError {
    /// Connection setup failed: bad address, empty host, or unusable trust roots.
    SetupFailure,
    /// The peer sent something the protocol does not allow at this point.
    ProtocolViolation,
    /// The peer asked for a feature this client does not implement.
    Unsupported,
}

} // verus!
