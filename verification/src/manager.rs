//! The in-memory peer registry and event hub.
//!
//! The manager owns three registries: `known_peers` (everyone this node
//! ever paired with), `discovered_peers` (known peers seen on the current
//! network), and `connected_peers` (ids with a live authenticated
//! connection). A single event-loop task owns the manager and applies
//! every mutation, so the registries need no internal locking; each
//! operation returns the event to publish, and the loop around the
//! library forwards it on the appropriate channel.
//!
//! Standing invariants: each registry holds an id at most once, and every
//! discovered peer is also known — presence responses from unpaired nodes
//! are never surfaced.

use vstd::prelude::*;
use crate::err::ConnError;
use crate::peer::{Addr, CandView, DeviceType, MetaView, Peer, PeerCandidate, PeerId, PeerMetadata, PeerView};
use crate::proto::{meta_wf, DiscView, DiscoveryEvent};

verus! {

/// Relies on `rand::random`: a value drawn from the thread-local
/// generator; nothing is promised of it.
pub assume_specification<T>[ rand::random::<T> ]() -> (r: T)
    where
        rand::distributions::Standard: rand::distributions::Distribution<T>,
;

/// Mathematical image of [`P2pEvent`].
pub ghost enum P2pEventView {
    Discovered { meta: MetaView },
    Connected { peer: PeerView },
    Disconnected { id: Seq<u8> },
}

/// What the manager tells the application.
pub enum P2pEvent {
    PeerDiscovered(PeerMetadata),
    PeerConnected(Peer),
    PeerDisconnected(PeerId),
}

impl View for P2pEvent {
    type V = P2pEventView;

    open spec fn view(&self) -> P2pEventView {
        match self {
            P2pEvent::PeerDiscovered(meta) => P2pEventView::Discovered { meta: meta@ },
            P2pEvent::PeerConnected(peer) => P2pEventView::Connected { peer: peer@ },
            P2pEvent::PeerDisconnected(id) => P2pEventView::Disconnected { id: id@ },
        }
    }
}

/// What a node needs to take part: its identity, how it presents itself,
/// and the discovery and listen endpoints.
pub struct P2pConfig {
    pub id: PeerId,
    pub device: DeviceType,
    pub name: Vec<u8>,
    pub multicast: Addr,
    pub p2p_addr: Addr,
}

/// Whether some entry of `s` carries `id`.
pub open spec fn contains_id(s: Seq<CandView>, id: Seq<u8>) -> bool {
    exists|i: int| 0 <= i < s.len() && s[i].id == id
}

/// The index of the entry carrying `id`.
pub open spec fn idx_of(s: Seq<CandView>, id: Seq<u8>) -> int {
    choose|i: int| 0 <= i < s.len() && s[i].id == id
}

/// `s` with `c` replacing the entry of the same id, or appended if the id
/// is new.
pub open spec fn upsert(s: Seq<CandView>, c: CandView) -> Seq<CandView> {
    if contains_id(s, c.id) {
        s.update(idx_of(s, c.id), c)
    } else {
        s.push(c)
    }
}

/// Each id occurs at most once in `s`.
pub open spec fn unique_ids(s: Seq<CandView>) -> bool {
    forall|i: int, j: int| 0 <= i < j < s.len() ==> s[i].id != s[j].id
}

/// Each id occurs at most once in `s`.
pub open spec fn unique_seq(s: Seq<Seq<u8>>) -> bool {
    forall|i: int, j: int| 0 <= i < j < s.len() ==> s[i] != s[j]
}

/// Mathematical image of [`P2pManager`].
pub ghost struct ManagerView {
    pub id: Seq<u8>,
    pub metadata: MetaView,
    pub known: Seq<CandView>,
    pub discovered: Seq<CandView>,
    pub connected: Seq<Seq<u8>>,
    pub dedup: u32,
}

/// The registry of known, discovered, and connected peers, plus the
/// node's own identity and dedup nonce.
pub struct P2pManager {
    pub id: PeerId,
    pub metadata: PeerMetadata,
    known_peers: Vec<PeerCandidate>,
    discovered_peers: Vec<PeerCandidate>,
    connected_peers: Vec<PeerId>,
    pub dedup: u32,
}

impl View for P2pManager {
    type V = ManagerView;

    closed spec fn view(&self) -> ManagerView {
        ManagerView {
            id: self.id@,
            metadata: self.metadata@,
            known: self.known_peers@.map_values(|c: PeerCandidate| c@),
            discovered: self.discovered_peers@.map_values(|c: PeerCandidate| c@),
            connected: self.connected_peers@.map_values(|p: PeerId| p@),
            dedup: self.dedup,
        }
    }
}

impl P2pManager {
    /// The standing shape of the registry: the node's metadata is its own
    /// and short enough to broadcast, ids are unique within each
    /// registry, every candidate is keyed by its metadata's id, and every
    /// discovered peer is also known.
    pub open spec fn wf(self) -> bool {
        &&& self@.metadata.id == self@.id
        &&& meta_wf(self@.metadata)
        &&& unique_ids(self@.known)
        &&& unique_ids(self@.discovered)
        &&& unique_seq(self@.connected)
        &&& forall|i: int|
            0 <= i < self@.known.len() ==> (#[trigger] self@.known[i]).id == self@.known[i].metadata.id
        &&& forall|i: int|
            0 <= i < self@.discovered.len() ==> (#[trigger] self@.discovered[i]).id
                == self@.discovered[i].metadata.id
        &&& forall|i: int|
            0 <= i < self@.discovered.len() ==> contains_id(
                self@.known,
                (#[trigger] self@.discovered[i]).id,
            )
    }

    /// A fresh manager for `config`, advertising `listen_addr` (the bound
    /// TCP endpoint) in its metadata; the registries start empty and the
    /// dedup nonce is drawn at random.
    pub fn new(config: P2pConfig, listen_addr: Addr) -> (r: P2pManager)
        requires
            config.id@.len() + config.name@.len() + 16 < 0x100000000,
        ensures
            r.wf(),
            r@.id == config.id@,
            r@.metadata == (MetaView {
                id: config.id@,
                device: config.device,
                name: config.name@,
                addr: listen_addr,
            }),
            r@.known == Seq::<CandView>::empty(),
            r@.discovered == Seq::<CandView>::empty(),
            r@.connected == Seq::<Seq<u8>>::empty(),
    {
        let dedup: u32 = rand::random::<u32>();
        let metadata = PeerMetadata {
            id: config.id.duplicate(),
            device: config.device,
            name: config.name,
            addr: listen_addr,
        };
        let r = P2pManager {
            id: config.id,
            metadata,
            known_peers: Vec::new(),
            discovered_peers: Vec::new(),
            connected_peers: Vec::new(),
            dedup,
        };
        proof {
            assert(r@.known =~= Seq::<CandView>::empty());
            assert(r@.discovered =~= Seq::<CandView>::empty());
            assert(r@.connected =~= Seq::<Seq<u8>>::empty());
        }
        r
    }

    /// Finds the position of `id` in a candidate list.
    fn find_in(list: &Vec<PeerCandidate>, id: &PeerId) -> (r: Option<usize>)
        ensures
            (r matches Some(i) ==> i < list@.len() && list@.map_values(|c: PeerCandidate| c@)[i as int].id
                == id@),
            (r is None ==> !contains_id(list@.map_values(|c: PeerCandidate| c@), id@)),
    {
        let ghost view = list@.map_values(|c: PeerCandidate| c@);
        let mut i: usize = 0;
        while i < list.len()
            invariant
                i <= list@.len(),
                view == list@.map_values(|c: PeerCandidate| c@),
                forall|j: int| 0 <= j < i ==> view[j].id != id@,
            decreases list@.len() - i,
        {
            if list[i].id.eq_id(id) {
                return Some(i);
            }
            i += 1;
        }
        None
    }

    /// Records (or refreshes) a paired peer. Called by the application
    /// with credentials loaded from persisted pairing state or produced
    /// by a fresh pairing exchange.
    pub fn add_known_peer(&mut self, peer: PeerCandidate)
        requires
            old(self).wf(),
            peer.wf(),
        ensures
            final(self).wf(),
            final(self)@ == (ManagerView { known: upsert(old(self)@.known, peer@), ..old(self)@ }),
    {
        let ghost oldknown = self@.known;
        let ghost c = peer@;
        match Self::find_in(&self.known_peers, &peer.id) {
            Some(i) => {
                self.known_peers.set(i, peer);
                proof {
                    assert(contains_id(oldknown, c.id)) by {
                        assert(oldknown[i as int].id == c.id);
                    }
                    let j = idx_of(oldknown, c.id);
                    assert(0 <= j < oldknown.len() && oldknown[j].id == c.id);
                    assert(j == i as int);
                    assert(self@.known =~= oldknown.update(i as int, c));
                    assert(forall|a: int|
                        0 <= a < self@.known.len() ==> (#[trigger] self@.known[a]).id == (
                        if a == i as int {
                            c.id
                        } else {
                            oldknown[a].id
                        }));
                }
            },
            None => {
                self.known_peers.push(peer);
                proof {
                    assert(self@.known =~= oldknown.push(c));
                }
            },
        }
        proof {
            assert(final(self)@.discovered =~= old(self)@.discovered);
            assert(final(self)@.connected =~= old(self)@.connected);
            let k2 = final(self)@.known;
            assert forall|a: int|
                0 <= a < final(self)@.discovered.len() implies contains_id(
                k2,
                (#[trigger] final(self)@.discovered[a]).id,
            ) by {
                let did = old(self)@.discovered[a].id;
                let b = idx_of(oldknown, did);
                assert(contains_id(oldknown, did));
                assert(0 <= b < oldknown.len() && oldknown[b].id == did);
                assert(k2[b].id == did);
            }
        }
    }

    /// The presence request this node sends: stamped with its own dedup
    /// nonce so that multicast echoes of it can be recognized.
    pub fn request_presence(&self) -> (ev: DiscoveryEvent)
        ensures
            ev@ == (DiscView::Request { dedup: self@.dedup }),
    {
        DiscoveryEvent::PresenceRequest(self.dedup)
    }

    /// The node's own advertised metadata.
    pub fn get_metadata(&self) -> (r: &PeerMetadata)
        ensures
            r@ == self@.metadata,
    {
        &self.metadata
    }

    /// A snapshot of the metadata of every discovered peer, in the order
    /// they were discovered.
    pub fn get_discovered_peers(&self) -> (r: Vec<PeerMetadata>)
        ensures
            r@.len() == self@.discovered.len(),
            forall|i: int| 0 <= i < r@.len() ==> r@[i]@ == self@.discovered[i].metadata,
    {
        let mut r: Vec<PeerMetadata> = Vec::new();
        let mut i: usize = 0;
        while i < self.discovered_peers.len()
            invariant
                i <= self.discovered_peers@.len(),
                r@.len() == i,
                forall|j: int| 0 <= j < i ==> r@[j]@ == self@.discovered[j].metadata,
            decreases self.discovered_peers@.len() - i,
        {
            r.push(self.discovered_peers[i].metadata.duplicate());
            i += 1;
        }
        r
    }

    /// Whether `id` has been discovered on the current network.
    pub fn is_discovered(&self, id: &PeerId) -> (r: bool)
        ensures
            r == contains_id(self@.discovered, id@),
    {
        Self::find_in(&self.discovered_peers, id).is_some()
    }

    /// Whether a live connection to `id` exists.
    pub fn is_connected(&self, id: &PeerId) -> (r: bool)
        ensures
            r == self@.connected.contains(id@),
    {
        let mut i: usize = 0;
        while i < self.connected_peers.len()
            invariant
                i <= self.connected_peers@.len(),
                forall|j: int| 0 <= j < i ==> self@.connected[j] != id@,
            decreases self.connected_peers@.len() - i,
        {
            if self.connected_peers[i].eq_id(id) {
                proof {
                    assert(self@.connected[i as int] == id@);
                }
                return true;
            }
            i += 1;
        }
        proof {
            if self@.connected.contains(id@) {
                let j = choose|j: int| 0 <= j < self@.connected.len() && self@.connected[j] == id@;
                assert(false);
            }
        }
        false
    }

    /// Plans an outbound connection to `id`: refused as a duplicate when a
    /// connection is live, refused as not found when the peer has not been
    /// discovered, and otherwise the discovered candidate, whose addresses
    /// the caller dials in order before running the client handshake (all
    /// of them failing is the address-exhausted error).
    pub fn connect_to_peer(&self, id: &PeerId) -> (r: Result<PeerCandidate, ConnError>)
        requires
            self.wf(),
        ensures
            match r {
                Ok(c) => !self@.connected.contains(id@) && c@.id == id@
                    && self@.discovered.contains(c@),
                Err(e) => match e {
                    ConnError::Dup => self@.connected.contains(id@),
                    ConnError::NotFound => !self@.connected.contains(id@) && !contains_id(
                        self@.discovered,
                        id@,
                    ),
                    _ => false,
                },
            },
    {
        if self.is_connected(id) {
            return Err(ConnError::Dup);
        }
        match Self::find_in(&self.discovered_peers, id) {
            Some(i) => {
                let c = self.discovered_peers[i].duplicate();
                proof {
                    assert(self@.discovered.contains(c@)) by {
                        assert(self@.discovered[i as int] == c@);
                    }
                }
                Ok(c)
            },
            None => Err(ConnError::NotFound),
        }
    }

    /// Drops `id` from the connected registry when its connection task
    /// winds down, and reports the disconnection.
    pub fn peer_disconnected(&mut self, id: &PeerId) -> (ev: P2pEvent)
        requires
            old(self).wf(),
        ensures
            final(self).wf(),
            !final(self)@.connected.contains(id@),
            final(self)@ == (ManagerView {
                connected: if old(self)@.connected.contains(id@) {
                    old(self)@.connected.remove(old(self)@.connected.index_of(id@))
                } else {
                    old(self)@.connected
                },
                ..old(self)@
            }),
            ev@ == (P2pEventView::Disconnected { id: id@ }),
    {
        let ghost oldconn = self@.connected;
        let mut i: usize = 0;
        let mut found = false;
        while i < self.connected_peers.len() && !found
            invariant
                i <= self.connected_peers@.len(),
                !found ==> forall|j: int| 0 <= j < i ==> oldconn[j] != id@,
                found ==> i < oldconn.len() && oldconn[i as int] == id@,
                self@.connected == oldconn,
            decreases self.connected_peers@.len() - i + (if found { 0int } else { 1int }),
        {
            if self.connected_peers[i].eq_id(id) {
                found = true;
            } else {
                i += 1;
            }
        }
        if found {
            self.connected_peers.remove(i);
            proof {
                assert(oldconn.contains(id@)) by {
                    assert(oldconn[i as int] == id@);
                }
                let j = oldconn.index_of(id@);
                assert(0 <= j < oldconn.len() && oldconn[j] == id@);
                assert(j == i as int);
                assert(self@.connected =~= oldconn.remove(i as int));
                assert forall|k: int| 0 <= k < self@.connected.len() implies self@.connected[k]
                    != id@ by {
                    if k < i {
                    } else {
                        assert(self@.connected[k] == oldconn[k + 1]);
                    }
                }
                if self@.connected.contains(id@) {
                    let k = choose|k: int|
                        0 <= k < self@.connected.len() && self@.connected[k] == id@;
                    assert(false);
                }
                assert(final(self)@.known =~= old(self)@.known);
                assert(final(self)@.discovered =~= old(self)@.discovered);
            }
        } else {
            proof {
                if oldconn.contains(id@) {
                    let k = choose|k: int| 0 <= k < oldconn.len() && oldconn[k] == id@;
                    assert(false);
                }
            }
        }
        P2pEvent::PeerDisconnected(id.duplicate())
    }

    /// What the accept-side handshake knows about `id`: the discovered
    /// entry if the peer is on the network, else the known entry from
    /// pairing state, else nothing.
    pub fn get_peer_candidate(&self, id: &PeerId) -> (r: Option<PeerCandidate>)
        ensures
            (r matches Some(c) ==> c@.id == id@ && (if contains_id(self@.discovered, id@) {
                self@.discovered.contains(c@)
            } else {
                self@.known.contains(c@)
            })),
            (r is None ==> !contains_id(self@.discovered, id@) && !contains_id(self@.known, id@)),
    {
        match Self::find_in(&self.discovered_peers, id) {
            Some(i) => {
                let c = self.discovered_peers[i].duplicate();
                proof {
                    assert(self@.discovered.contains(c@)) by {
                        assert(self@.discovered[i as int] == c@);
                    }
                    assert(contains_id(self@.discovered, id@)) by {
                        assert(self@.discovered[i as int].id == id@);
                    }
                }
                Some(c)
            },
            None => match Self::find_in(&self.known_peers, id) {
                Some(i) => {
                    let c = self.known_peers[i].duplicate();
                    proof {
                        assert(self@.known.contains(c@)) by {
                            assert(self@.known[i as int] == c@);
                        }
                    }
                    Some(c)
                },
                None => None,
            },
        }
    }

    /// Takes note of a presence response. Already-connected and
    /// already-discovered peers are left as they are; a peer with no
    /// pairing record is discarded unheard; otherwise the peer enters the
    /// discovered registry under its freshly advertised metadata and
    /// endpoint, with the credentials kept from pairing, the known entry
    /// is refreshed to match, and the discovery is reported.
    pub fn handle_peer_discovered(&mut self, peer: PeerMetadata) -> (r: Option<P2pEvent>)
        requires
            old(self).wf(),
        ensures
            final(self).wf(),
            old(self)@.connected.contains(peer@.id) || contains_id(old(self)@.discovered, peer@.id)
                ==> final(self)@ == old(self)@ && r is None,
            !old(self)@.connected.contains(peer@.id) && !contains_id(
                old(self)@.discovered,
                peer@.id,
            ) && !contains_id(old(self)@.known, peer@.id) ==> final(self)@ == old(self)@
                && r is None,
            !old(self)@.connected.contains(peer@.id) && !contains_id(
                old(self)@.discovered,
                peer@.id,
            ) && contains_id(old(self)@.known, peer@.id) ==> {
                let cand = CandView {
                    id: peer@.id,
                    metadata: peer@,
                    addrs: seq![peer@.addr],
                    auth: old(self)@.known[idx_of(old(self)@.known, peer@.id)].auth,
                };
                &&& final(self)@ == (ManagerView {
                    known: upsert(old(self)@.known, cand),
                    discovered: old(self)@.discovered.push(cand),
                    ..old(self)@
                })
                &&& (r matches Some(ev) && ev@ == (P2pEventView::Discovered { meta: peer@ }))
            },
    {
        let id = peer.id.duplicate();
        if self.is_connected(&id) {
            return None;
        }
        if self.is_discovered(&id) {
            return None;
        }
        match Self::find_in(&self.known_peers, &id) {
            None => None,
            Some(i) => {
                let ghost oldknown = self@.known;
                let known_auth = self.known_peers[i].auth.duplicate();
                let mut candidate = PeerCandidate {
                    id: peer.id.duplicate(),
                    metadata: peer.duplicate(),
                    addrs: Vec::new(),
                    auth: known_auth,
                };
                candidate.addrs.push(peer.addr);
                let ghost cand = candidate@;
                proof {
                    assert(cand.addrs =~= seq![peer@.addr]);
                    assert(contains_id(oldknown, peer@.id)) by {
                        assert(oldknown[i as int].id == peer@.id);
                    }
                    let j = idx_of(oldknown, peer@.id);
                    assert(0 <= j < oldknown.len() && oldknown[j].id == peer@.id);
                    assert(j == i as int);
                }
                let candidate2 = candidate.duplicate();
                self.discovered_peers.push(candidate);
                self.known_peers.set(i, candidate2);
                proof {
                    assert(self@.discovered =~= old(self)@.discovered.push(cand));
                    assert(self@.known =~= upsert(oldknown, cand));
                    assert(self@.connected =~= old(self)@.connected);
                    // the refreshed registries keep the standing shape
                    assert forall|a: int|
                        0 <= a < self@.discovered.len() implies contains_id(
                        self@.known,
                        (#[trigger] self@.discovered[a]).id,
                    ) by {
                        if a < old(self)@.discovered.len() {
                            let b = idx_of(oldknown, old(self)@.discovered[a].id);
                            assert(oldknown[b].id == old(self)@.discovered[a].id);
                            if b == i as int {
                                assert(self@.known[b].id == cand.id);
                                assert(old(self)@.discovered[a].id == oldknown[b].id);
                                assert(oldknown[i as int].id == cand.id);
                            } else {
                                assert(self@.known[b].id == old(self)@.discovered[a].id);
                            }
                        } else {
                            assert(self@.discovered[a] == cand);
                            assert(self@.known[i as int].id == cand.id);
                        }
                    }
                }
                Some(P2pEvent::PeerDiscovered(peer))
            },
        }
    }

    /// Answers a peer's presence request with this node's own metadata.
    pub fn handle_presence_request(&self) -> (ev: DiscoveryEvent)
        requires
            self.wf(),
        ensures
            ev@ == (DiscView::Response { meta: self@.metadata }),
            crate::proto::disc_wf(ev@),
    {
        DiscoveryEvent::PresenceResponse(self.metadata.duplicate())
    }

    /// Records a freshly authenticated connection (from either role) and
    /// reports it. Recording the same id twice leaves the registry as it
    /// was: at most one live connection per peer is tracked.
    pub fn handle_new_connection(&mut self, peer: Peer) -> (ev: P2pEvent)
        requires
            old(self).wf(),
        ensures
            final(self).wf(),
            final(self)@ == (ManagerView {
                connected: if old(self)@.connected.contains(peer@.id) {
                    old(self)@.connected
                } else {
                    old(self)@.connected.push(peer@.id)
                },
                ..old(self)@
            }),
            final(self)@.connected.contains(peer@.id),
            ev@ == (P2pEventView::Connected { peer: peer@ }),
    {
        if !self.is_connected(&peer.id) {
            self.connected_peers.push(peer.id.duplicate());
            proof {
                assert(self@.connected =~= old(self)@.connected.push(peer@.id));
                assert(self@.connected[self@.connected.len() - 1] == peer@.id);
                assert forall|a: int, b: int|
                    0 <= a < b < self@.connected.len() implies self@.connected[a]
                    != self@.connected[b] by {
                    if b < self@.connected.len() - 1 {
                    } else {
                        assert(self@.connected[b] == peer@.id);
                        assert(!old(self)@.connected.contains(peer@.id));
                        assert(old(self)@.connected[a] == self@.connected[a]);
                    }
                }
            }
        } else {
            proof {
                assert(final(self)@ =~= old(self)@);
            }
        }
        proof {
            assert(final(self)@.known =~= old(self)@.known);
            assert(final(self)@.discovered =~= old(self)@.discovered);
        }
        P2pEvent::PeerConnected(peer)
    }

    /// Every discovered peer has a pairing record: discovery alone never
    /// surfaces an unpaired node.
    pub proof fn lemma_discovered_are_known(&self)
        requires
            self.wf(),
        ensures
            forall|i: int|
                0 <= i < self@.discovered.len() ==> contains_id(
                    self@.known,
                    (#[trigger] self@.discovered[i]).id,
                ),
    {
    }

    /// The connected registry holds an id at most once: one live
    /// connection per peer.
    pub proof fn lemma_connected_unique(&self)
        requires
            self.wf(),
        ensures
            forall|i: int, j: int|
                0 <= i < j < self@.connected.len() ==> self@.connected[i] != self@.connected[j],
    {
    }
}

} // verus!
