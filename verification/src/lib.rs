//! Core of a LAN peer-to-peer system: multicast discovery with self-echo
//! suppression, an in-memory peer registry, and a mutually authenticated
//! TCP handshake built on HMAC over a time-based one-time password.
//!
//! The library is the decision-making half of a node. Sockets, channels,
//! the clock, and storage live with the binary around it, which feeds
//! bytes, frames, and commands in and carries frames and effects out:
//!
//! - [`proto`] — the wire frames and their codecs, with round-trip proofs;
//! - [`hmac`] and [`pairing`] — tag signing and the rotating one-time
//!   password derived from a pairing secret;
//! - [`net`] — the client and server handshake state machines;
//! - [`discovery`] — the self-echo filter for inbound multicast frames;
//! - [`manager`] — the known/discovered/connected peer registries;
//! - [`node`] — configuration, control sessions, and the command, query,
//!   and event handling of the node core.

pub mod discovery;
pub mod err;
pub mod hmac;
pub mod manager;
pub mod net;
pub mod node;
pub mod pairing;
pub mod peer;
pub mod proto;
