//! Error kinds surfaced by connection establishment.

use vstd::prelude::*;

verus! {

/// Why establishing an authenticated connection failed.
#[derive(Clone, Copy, PartialEq, Eq, Structural, Debug)]
pub enum ConnError {
    /// The peer is already connected; connecting again has no effect.
    Dup,
    /// The peer is not discovered (outbound) or not known (inbound).
    NotFound,
    /// Every candidate address failed to connect.
    Addr,
    /// A handshake step exceeded its deadline.
    Timeout,
    /// The peer closed the stream mid-handshake.
    Disconnect,
    /// Tag verification failed.
    Auth,
    /// An unexpected message arrived for the current handshake step.
    Msg,
    /// The peer refused the handshake with the carried code.
    Failure(u32),
}

} // verus!
