//! Peer identity, metadata, and candidate records.
//!
//! Network addresses are held as plain values (an IPv4 address as a `u32`
//! plus a port); the binary around the library converts to and from the
//! platform socket types. Peer names are UTF-8 byte strings.

use vstd::prelude::*;
use vstd::slice::slice_to_vec;
use crate::pairing::PairingAuthenticator;

verus! {

/// Compares two byte strings for equality.
pub fn bytes_eq(a: &[u8], b: &[u8]) -> (r: bool)
    ensures
        r == (a@ == b@),
{
    if a.len() != b.len() {
        assert(a@.len() != b@.len());
        return false;
    }
    let mut i: usize = 0;
    while i < a.len()
        invariant
            i <= a@.len(),
            a@.len() == b@.len(),
            forall|j: int| 0 <= j < i ==> a@[j] == b@[j],
        decreases a@.len() - i,
    {
        if a[i] != b[i] {
            return false;
        }
        i += 1;
    }
    assert(a@ =~= b@);
    true
}

/// An opaque, globally unique node identifier, held as raw bytes so it can
/// feed the handshake's MAC directly.
#[derive(Debug, PartialEq, Eq)]
pub struct PeerId {
    pub bytes: Vec<u8>,
}

impl View for PeerId {
    type V = Seq<u8>;

    open spec fn view(&self) -> Seq<u8> {
        self.bytes@
    }
}

impl PeerId {
    pub fn new(bytes: Vec<u8>) -> (r: Self)
        ensures
            r@ == bytes@,
    {
        PeerId { bytes }
    }

    /// The identifier's raw bytes, the form hashed during the handshake.
    pub fn as_bytes(&self) -> (r: &[u8])
        ensures
            r@ == self@,
    {
        self.bytes.as_slice()
    }

    pub fn duplicate(&self) -> (r: Self)
        ensures
            r@ == self@,
    {
        PeerId { bytes: slice_to_vec(self.bytes.as_slice()) }
    }

    pub fn eq_id(&self, other: &PeerId) -> (r: bool)
        ensures
            r == (self@ == other@),
    {
        bytes_eq(self.bytes.as_slice(), other.bytes.as_slice())
    }
}

impl Default for PeerId {
    /// The empty identifier, a placeholder until an identity is assigned.
    fn default() -> (r: Self)
        ensures
            r@ == Seq::<u8>::empty(),
    {
        PeerId { bytes: Vec::new() }
    }
}

/// The rough class of device a peer runs on, broadcast with its metadata.
#[derive(Clone, Copy, PartialEq, Eq, Structural, Debug)]
pub enum DeviceType {
    Desktop,
    Mobile,
    Unknown,
}

/// An IPv4 endpoint as plain values: the address in its natural big-endian
/// integer form, and the TCP or UDP port.
#[derive(Clone, Copy, PartialEq, Eq, Structural, Debug)]
pub struct Addr {
    pub ip: u32,
    pub port: u16,
}

/// Whether `ip` lies in the IPv4 multicast range `224.0.0.0/4`.
pub open spec fn is_multicast_v4_spec(ip: u32) -> bool {
    0xE0000000u32 <= ip < 0xF0000000u32
}

impl Addr {
    /// Whether the address may serve as a multicast group.
    pub fn is_multicast_v4(&self) -> (r: bool)
        ensures
            r == is_multicast_v4_spec(self.ip),
    {
        0xE0000000u32 <= self.ip && self.ip < 0xF0000000u32
    }
}

/// Mathematical image of [`PeerMetadata`].
pub ghost struct MetaView {
    pub id: Seq<u8>,
    pub device: DeviceType,
    pub name: Seq<u8>,
    pub addr: Addr,
}

/// What a node advertises about itself in presence responses: identity,
/// device class, human-readable name (UTF-8 bytes), and the TCP endpoint
/// it accepts connections on.
#[derive(Debug, PartialEq, Eq)]
pub struct PeerMetadata {
    pub id: PeerId,
    pub device: DeviceType,
    pub name: Vec<u8>,
    pub addr: Addr,
}

impl View for PeerMetadata {
    type V = MetaView;

    open spec fn view(&self) -> MetaView {
        MetaView { id: self.id@, device: self.device, name: self.name@, addr: self.addr }
    }
}

impl PeerMetadata {
    pub fn duplicate(&self) -> (r: Self)
        ensures
            r@ == self@,
    {
        PeerMetadata {
            id: self.id.duplicate(),
            device: self.device,
            name: slice_to_vec(self.name.as_slice()),
            addr: self.addr,
        }
    }
}

/// Mathematical image of [`PeerCandidate`].
pub ghost struct CandView {
    pub id: Seq<u8>,
    pub metadata: MetaView,
    pub addrs: Seq<Addr>,
    pub auth: Seq<u8>,
}

/// A peer this node is paired with: its last seen metadata, every endpoint
/// observed for it, and the credentials needed to authenticate to it.
pub struct PeerCandidate {
    pub id: PeerId,
    pub metadata: PeerMetadata,
    pub addrs: Vec<Addr>,
    pub auth: PairingAuthenticator,
}

impl View for PeerCandidate {
    type V = CandView;

    open spec fn view(&self) -> CandView {
        CandView { id: self.id@, metadata: self.metadata@, addrs: self.addrs@, auth: self.auth@ }
    }
}

impl PeerCandidate {
    /// A candidate is coherent when it is keyed by its own metadata's id
    /// and records each endpoint once.
    pub open spec fn wf(self) -> bool {
        &&& self@.id == self@.metadata.id
        &&& forall|i: int, j: int|
            0 <= i < j < self@.addrs.len() ==> self@.addrs[i] != self@.addrs[j]
    }

    /// A fresh candidate for `meta`, dialable at its advertised endpoint.
    pub fn new(meta: &PeerMetadata, auth: PairingAuthenticator) -> (r: Self)
        ensures
            r@.id == meta@.id,
            r@.metadata == meta@,
            r@.addrs == seq![meta@.addr],
            r@.auth == auth@,
            r.wf(),
    {
        let mut addrs: Vec<Addr> = Vec::new();
        addrs.push(meta.addr);
        proof {
            assert(addrs@ =~= seq![meta@.addr]);
        }
        PeerCandidate { id: meta.id.duplicate(), metadata: meta.duplicate(), addrs, auth }
    }

    pub fn duplicate(&self) -> (r: Self)
        ensures
            r@ == self@,
    {
        let mut addrs: Vec<Addr> = Vec::new();
        let mut i: usize = 0;
        while i < self.addrs.len()
            invariant
                i <= self.addrs@.len(),
                addrs@ == self.addrs@.subrange(0, i as int),
            decreases self.addrs@.len() - i,
        {
            addrs.push(self.addrs[i]);
            proof {
                assert(addrs@ =~= self.addrs@.subrange(0, i as int + 1));
            }
            i += 1;
        }
        proof {
            assert(self.addrs@.subrange(0, self.addrs@.len() as int) =~= self.addrs@);
        }
        PeerCandidate {
            id: self.id.duplicate(),
            metadata: self.metadata.duplicate(),
            addrs,
            auth: self.auth.duplicate(),
        }
    }
}

/// Which side of the handshake produced a connection.
#[derive(Clone, Copy, PartialEq, Eq, Structural, Debug)]
pub enum ConnectionType {
    Client,
    Server,
}

/// Mathematical image of [`Peer`].
pub ghost struct PeerView {
    pub id: Seq<u8>,
    pub metadata: MetaView,
    pub role: ConnectionType,
}

/// A live, authenticated connection to a remote node. Only a completed
/// handshake creates one; the task that owns the underlying stream holds
/// it for as long as the connection lives.
#[derive(Debug)]
pub struct Peer {
    pub id: PeerId,
    pub metadata: PeerMetadata,
    pub role: ConnectionType,
}

impl View for Peer {
    type V = PeerView;

    open spec fn view(&self) -> PeerView {
        PeerView { id: self.id@, metadata: self.metadata@, role: self.role }
    }
}

impl Peer {
    pub fn new(role: ConnectionType, metadata: PeerMetadata) -> (r: Self)
        ensures
            r@.id == metadata@.id,
            r@.metadata == metadata@,
            r@.role == role,
    {
        Peer { id: metadata.id.duplicate(), metadata, role }
    }
}

} // verus!
