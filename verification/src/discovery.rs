//! Self-echo suppression for the multicast discovery loop.
//!
//! Every presence request a process sends is stamped with a `dedup` nonce
//! drawn once at startup. Multicast loopback is enabled so that several
//! nodes on one machine can hear each other, which means a node also hears
//! its own requests; an inbound request stamped with the local nonce is
//! such an echo and is dropped before it reaches the manager. Stamping
//! every request handles rapid repeated requests, which a single
//! just-sent flag would not.

use vstd::prelude::*;
use crate::proto::{DiscView, DiscoveryEvent};

verus! {

/// Whether an inbound discovery event is an echo of this process's own
/// presence request.
pub open spec fn is_self_echo(local_dedup: u32, d: DiscView) -> bool {
    match d {
        DiscView::Request { dedup } => dedup == local_dedup,
        DiscView::Response { .. } => false,
    }
}

/// Decides whether an inbound discovery event reaches the manager: every
/// event does, except an echo of this process's own presence request.
pub fn should_forward(local_dedup: u32, ev: &DiscoveryEvent) -> (r: bool)
    ensures
        r == !is_self_echo(local_dedup, ev@),
{
    match ev {
        DiscoveryEvent::PresenceRequest(dedup) => *dedup != local_dedup,
        DiscoveryEvent::PresenceResponse(_) => true,
    }
}

} // verus!
