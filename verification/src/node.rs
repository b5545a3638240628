//! The node core: configuration, control sessions, and the decisions
//! behind the node's command, query, and event handling.
//!
//! The core is a state machine over plain values. The loop that owns the
//! channels, the storage, and the spawned connection tasks feeds commands
//! and events in and carries the returned effects out (persist this
//! configuration, start the presence loop, send this session); nothing
//! here touches a socket or the disk.

use vstd::prelude::*;
use crate::manager::{P2pEvent, P2pManager};
use crate::pairing::PairingAuthenticator;
use crate::peer::{bytes_eq, MetaView, PeerCandidate, PeerId, PeerMetadata};
use crate::proto::{Ctl, CtlReqView, CtlRequest, CtlResponse, CtlView, Session, SessView};

verus! {

/// Compares two metadata records for equality on every field.
pub fn meta_eq(a: &PeerMetadata, b: &PeerMetadata) -> (r: bool)
    ensures
        r == (a@ == b@),
{
    let r = a.id.eq_id(&b.id) && a.device == b.device
        && bytes_eq(a.name.as_slice(), b.name.as_slice()) && a.addr == b.addr;
    proof {
        if a@.id == b@.id && a@.device == b@.device && a@.name == b@.name && a@.addr == b@.addr {
            assert(a@ == b@);
        }
    }
    r
}

/// Mathematical image of [`NodeConfig`].
pub ghost struct ConfView {
    pub name: Seq<u8>,
    pub id: Seq<u8>,
    pub known_peers: Seq<MetaView>,
    pub auto_accept: bool,
}

/// What a node persists across restarts: its display name, its identity,
/// the set of peers it has paired with, and whether inbound control
/// requests are accepted without asking.
#[derive(Debug, PartialEq, Eq)]
pub struct NodeConfig {
    pub name: Vec<u8>,
    pub id: PeerId,
    pub known_peers: Vec<PeerMetadata>,
    pub auto_accept: bool,
}

impl View for NodeConfig {
    type V = ConfView;

    open spec fn view(&self) -> ConfView {
        ConfView {
            name: self.name@,
            id: self.id@,
            known_peers: self.known_peers@.map_values(|m: PeerMetadata| m@),
            auto_accept: self.auto_accept,
        }
    }
}

impl NodeConfig {
    /// The pairing records form a set: no metadata record twice.
    pub open spec fn wf(self) -> bool {
        forall|i: int, j: int|
            0 <= i < j < self@.known_peers.len() ==> self@.known_peers[i] != self@.known_peers[j]
    }

    pub fn duplicate(&self) -> (r: Self)
        ensures
            r@ == self@,
    {
        let mut known: Vec<PeerMetadata> = Vec::new();
        let mut i: usize = 0;
        while i < self.known_peers.len()
            invariant
                i <= self.known_peers@.len(),
                known@.len() == i,
                forall|j: int| 0 <= j < i ==> known@[j]@ == self.known_peers@[j]@,
            decreases self.known_peers@.len() - i,
        {
            known.push(self.known_peers[i].duplicate());
            i += 1;
        }
        let r = NodeConfig {
            name: vstd::slice::slice_to_vec(self.name.as_slice()),
            id: self.id.duplicate(),
            known_peers: known,
            auto_accept: self.auto_accept,
        };
        proof {
            assert(r@.known_peers =~= self@.known_peers);
        }
        r
    }

    /// Adds a pairing record, keeping the set free of duplicates.
    pub fn insert_known_peer(&mut self, meta: PeerMetadata)
        requires
            old(self).wf(),
        ensures
            final(self).wf(),
            final(self)@ == (ConfView {
                known_peers: if old(self)@.known_peers.contains(meta@) {
                    old(self)@.known_peers
                } else {
                    old(self)@.known_peers.push(meta@)
                },
                ..old(self)@
            }),
            final(self)@.known_peers.contains(meta@),
    {
        let ghost oldset = self@.known_peers;
        let mut i: usize = 0;
        while i < self.known_peers.len()
            invariant
                self == old(self),
                old(self).wf(),
                i <= self.known_peers@.len(),
                self@.known_peers == oldset,
                forall|j: int| 0 <= j < i ==> oldset[j] != meta@,
            decreases self.known_peers@.len() - i,
        {
            if meta_eq(&self.known_peers[i], &meta) {
                proof {
                    assert(oldset[i as int] == meta@);
                    assert(oldset.contains(meta@));
                }
                return ;
            }
            i += 1;
        }
        proof {
            if oldset.contains(meta@) {
                let k = choose|k: int| 0 <= k < oldset.len() && oldset[k] == meta@;
                assert(false);
            }
        }
        self.known_peers.push(meta);
        proof {
            assert(self@.known_peers =~= oldset.push(meta@));
            assert(self@.known_peers[self@.known_peers.len() - 1] == meta@);
            assert forall|a: int, b: int|
                0 <= a < b < self@.known_peers.len() implies self@.known_peers[a]
                != self@.known_peers[b] by {
                if b == self@.known_peers.len() - 1 {
                    assert(self@.known_peers[b] == meta@);
                    assert(oldset[a] != meta@);
                }
            }
        }
    }
}

impl Default for NodeConfig {
    /// An unnamed, unpaired node that asks before acting; the platform
    /// hook that supplies the host name fills `name` in afterwards.
    fn default() -> (r: Self)
        ensures
            r@ == (ConfView {
                name: Seq::<u8>::empty(),
                id: Seq::<u8>::empty(),
                known_peers: Seq::<MetaView>::empty(),
                auto_accept: false,
            }),
            r.wf(),
    {
        let r = NodeConfig {
            name: Vec::new(),
            id: PeerId::new(Vec::new()),
            known_peers: Vec::new(),
            auto_accept: false,
        };
        proof {
            assert(r@.known_peers =~= Seq::<MetaView>::empty());
        }
        r
    }
}

/// What the core tells the application's user interface.
#[derive(Debug, PartialEq, Eq)]
pub enum CoreEvent {
    Discovered(PeerMetadata),
    AskLaunchUri(PeerId, u64, Vec<u8>),
    LaunchUri(PeerId, u64, Vec<u8>),
    PeerCtlWaiting(PeerId),
    PeerCtlSuccess(PeerId),
    PeerCtlCancel(PeerId),
    PeerCtlFailed(PeerId),
}

/// Mathematical image of [`CoreEvent`].
pub ghost enum CoreEventView {
    Discovered { meta: MetaView },
    AskLaunchUri { id: Seq<u8>, session: u64, uri: Seq<u8> },
    LaunchUri { id: Seq<u8>, session: u64, uri: Seq<u8> },
    PeerCtlWaiting { id: Seq<u8> },
    PeerCtlSuccess { id: Seq<u8> },
    PeerCtlCancel { id: Seq<u8> },
    PeerCtlFailed { id: Seq<u8> },
}

impl View for CoreEvent {
    type V = CoreEventView;

    open spec fn view(&self) -> CoreEventView {
        match self {
            CoreEvent::Discovered(meta) => CoreEventView::Discovered { meta: meta@ },
            CoreEvent::AskLaunchUri(id, session, uri) => CoreEventView::AskLaunchUri {
                id: id@,
                session: *session,
                uri: uri@,
            },
            CoreEvent::LaunchUri(id, session, uri) => CoreEventView::LaunchUri {
                id: id@,
                session: *session,
                uri: uri@,
            },
            CoreEvent::PeerCtlWaiting(id) => CoreEventView::PeerCtlWaiting { id: id@ },
            CoreEvent::PeerCtlSuccess(id) => CoreEventView::PeerCtlSuccess { id: id@ },
            CoreEvent::PeerCtlCancel(id) => CoreEventView::PeerCtlCancel { id: id@ },
            CoreEvent::PeerCtlFailed(id) => CoreEventView::PeerCtlFailed { id: id@ },
        }
    }
}

/// What one device shows the other during pairing: the shared secret and
/// the showing device's metadata.
#[derive(Debug, PartialEq, Eq)]
pub struct QrPayload {
    pub secret: Vec<u8>,
    pub peer: PeerMetadata,
}

/// Mathematical image of [`QrPayload`].
pub ghost struct QrView {
    pub secret: Seq<u8>,
    pub peer: MetaView,
}

impl View for QrPayload {
    type V = QrView;

    open spec fn view(&self) -> QrView {
        QrView { secret: self.secret@, peer: self.peer@ }
    }
}

/// A command from the application layer.
pub enum CmdRequest {
    StartDiscovery,
    StopDiscovery,
    SendPeer(PeerId, CtlRequest),
    SetConfig(NodeConfig),
    Pair(QrPayload),
    Ack(PeerId, u64, CtlResponse),
}

/// What the loop around the core must do after a command.
pub enum CmdEffect {
    /// Nothing: the command was absorbed by the core's state.
    NoOp,
    /// Begin the periodic presence-request loop.
    StartPresence,
    /// Cancel the periodic presence-request loop.
    StopPresence,
    /// Connect to the peer and run the session against it.
    SendSession { id: PeerId, session: Session },
    /// Persist this configuration.
    Persist { conf: NodeConfig },
    /// Register the candidate with the manager and persist the
    /// configuration.
    PairPeer { candidate: PeerCandidate, conf: NodeConfig },
    /// Answer the open inbound session.
    Reply { session: Session },
}

/// The decimal digits of `n`, as ASCII bytes.
pub open spec fn dec_digits(n: u64) -> Seq<u8>
    decreases n,
{
    if n < 10 {
        seq![(0x30 + n) as u8]
    } else {
        dec_digits((n / 10) as u64).push((0x30 + n % 10) as u8)
    }
}

/// Writes `n` in decimal ASCII.
pub fn u64_to_dec(n: u64) -> (r: Vec<u8>)
    ensures
        r@ == dec_digits(n),
        r@.len() >= 1,
    decreases n,
{
    if n < 10 {
        let mut r: Vec<u8> = Vec::new();
        r.push(0x30 + n as u8);
        proof {
            assert(r@ =~= dec_digits(n));
        }
        r
    } else {
        let mut r = u64_to_dec(n / 10);
        r.push(0x30 + (n % 10) as u8);
        r
    }
}

/// Mathematical image of [`NodeCore`].
pub ghost struct NodeView {
    pub conf: ConfView,
    pub session_id: u64,
    pub sessions: Seq<u64>,
    pub discovery_active: bool,
}

/// The node's in-memory decision state: its configuration, the last
/// session id it handed out, the inbound sessions still awaiting an
/// answer, and whether the presence loop is running.
pub struct NodeCore {
    pub conf: NodeConfig,
    pub session_id: u64,
    pub sessions: Vec<u64>,
    pub discovery_active: bool,
}

impl View for NodeCore {
    type V = NodeView;

    open spec fn view(&self) -> NodeView {
        NodeView {
            conf: self.conf@,
            session_id: self.session_id,
            sessions: self.sessions@,
            discovery_active: self.discovery_active,
        }
    }
}

impl NodeCore {
    /// The configuration's pairing records form a set, and each open
    /// session id is tracked once.
    pub open spec fn wf(self) -> bool {
        &&& self.conf.wf()
        &&& forall|i: int, j: int|
            0 <= i < j < self@.sessions.len() ==> self@.sessions[i] != self@.sessions[j]
    }

    /// A core that has just loaded `conf`: no sessions yet, discovery
    /// stopped, session ids starting from one.
    pub fn new(conf: NodeConfig) -> (r: NodeCore)
        requires
            conf.wf(),
        ensures
            r.wf(),
            r@ == (NodeView {
                conf: conf@,
                session_id: 0,
                sessions: Seq::<u64>::empty(),
                discovery_active: false,
            }),
    {
        let r = NodeCore { conf, session_id: 0, sessions: Vec::new(), discovery_active: false };
        proof {
            assert(r@.sessions =~= Seq::<u64>::empty());
        }
        r
    }

    /// Decides a command. Session ids grow strictly: each outbound
    /// request is stamped with a fresh id above every id handed out
    /// before.
    pub fn handle_command(&mut self, cmd: CmdRequest) -> (r: CmdEffect)
        requires
            old(self).wf(),
            old(self)@.session_id < u64::MAX,
            cmd matches CmdRequest::SetConfig(new) ==> new.wf(),
        ensures
            final(self).wf(),
            (cmd is StartDiscovery ==> final(self)@ == (NodeView {
                discovery_active: true,
                ..old(self)@
            }) && if old(self)@.discovery_active {
                r is NoOp
            } else {
                r is StartPresence
            }),
            (cmd is StopDiscovery ==> final(self)@ == (NodeView {
                discovery_active: false,
                ..old(self)@
            }) && if old(self)@.discovery_active {
                r is StopPresence
            } else {
                r is NoOp
            }),
            (cmd matches CmdRequest::SendPeer(id, req) ==> {
                &&& final(self)@ == (NodeView {
                    session_id: (old(self)@.session_id + 1) as u64,
                    ..old(self)@
                })
                &&& r matches CmdEffect::SendSession { id: tid, session } && tid@ == id@
                    && session@.id == old(self)@.session_id + 1 && session@.id
                    > old(self)@.session_id && session@.ctl == (CtlView::Request { req: req@ })
            }),
            (cmd matches CmdRequest::SetConfig(new) ==> {
                &&& final(self)@ == (NodeView {
                    conf: ConfView { id: old(self)@.conf.id, ..new@ },
                    ..old(self)@
                })
                &&& r matches CmdEffect::Persist { conf } && conf@ == final(self)@.conf
            }),
            (cmd matches CmdRequest::Pair(payload) ==> {
                &&& final(self)@ == (NodeView {
                    conf: ConfView {
                        known_peers: if old(self)@.conf.known_peers.contains(payload@.peer) {
                            old(self)@.conf.known_peers
                        } else {
                            old(self)@.conf.known_peers.push(payload@.peer)
                        },
                        ..old(self)@.conf
                    },
                    ..old(self)@
                })
                &&& r matches CmdEffect::PairPeer { candidate, conf } && candidate@.id
                    == payload@.peer.id && candidate@.metadata == payload@.peer && candidate@.auth
                    == payload@.secret && candidate.wf() && conf@ == final(self)@.conf
            }),
            (cmd matches CmdRequest::Ack(_, session, ack) ==> {
                &&& !final(self)@.sessions.contains(session)
                &&& (old(self)@.sessions.contains(session) ==> final(self)@ == (NodeView {
                    sessions: old(self)@.sessions.remove(old(self)@.sessions.index_of(session)),
                    ..old(self)@
                }) && (r matches CmdEffect::Reply { session: s } && s@.id == session && s@.ctl
                    == (CtlView::Response { resp: ack })))
                &&& (!old(self)@.sessions.contains(session) ==> final(self)@ == old(self)@
                    && r is NoOp)
            }),
    {
        match cmd {
            CmdRequest::StartDiscovery => {
                if self.discovery_active {
                    CmdEffect::NoOp
                } else {
                    self.discovery_active = true;
                    CmdEffect::StartPresence
                }
            },
            CmdRequest::StopDiscovery => {
                let was = self.discovery_active;
                self.discovery_active = false;
                if was {
                    CmdEffect::StopPresence
                } else {
                    CmdEffect::NoOp
                }
            },
            CmdRequest::SendPeer(id, req) => {
                self.session_id = self.session_id + 1;
                CmdEffect::SendSession {
                    id,
                    session: Session { id: self.session_id, ctl: Ctl::Request(req) },
                }
            },
            CmdRequest::SetConfig(new) => {
                let NodeConfig { name, id: _, known_peers, auto_accept } = new;
                let withid = NodeConfig { name, id: self.conf.id.duplicate(), known_peers, auto_accept };
                let persisted = withid.duplicate();
                self.conf = withid;
                CmdEffect::Persist { conf: persisted }
            },
            CmdRequest::Pair(payload) => {
                let auth = PairingAuthenticator::new(payload.secret);
                let candidate = PeerCandidate::new(&payload.peer, auth);
                self.conf.insert_known_peer(payload.peer);
                let conf = self.conf.duplicate();
                CmdEffect::PairPeer { candidate, conf }
            },
            CmdRequest::Ack(_, session, ack) => {
                let ghost oldsessions = self@.sessions;
                let mut i: usize = 0;
                let mut found = false;
                while i < self.sessions.len() && !found
                    invariant
                        self == old(self),
                        i <= self.sessions@.len(),
                        !found ==> forall|j: int| 0 <= j < i ==> oldsessions[j] != session,
                        found ==> i < oldsessions.len() && oldsessions[i as int] == session,
                        self@.sessions == oldsessions,
                    decreases self.sessions@.len() - i + (if found {
                        0int
                    } else {
                        1int
                    }),
                {
                    if self.sessions[i] == session {
                        found = true;
                    } else {
                        i += 1;
                    }
                }
                if found {
                    self.sessions.remove(i);
                    proof {
                        assert(oldsessions.contains(session)) by {
                            assert(oldsessions[i as int] == session);
                        }
                        let j = oldsessions.index_of(session);
                        assert(0 <= j < oldsessions.len() && oldsessions[j] == session);
                        assert(j == i as int);
                        assert(self@.sessions =~= oldsessions.remove(i as int));
                        assert forall|k: int|
                            0 <= k < self@.sessions.len() implies self@.sessions[k] != session by {
                            if k < i {
                            } else {
                                assert(self@.sessions[k] == oldsessions[k + 1]);
                            }
                        }
                        if self@.sessions.contains(session) {
                            let k = choose|k: int|
                                0 <= k < self@.sessions.len() && self@.sessions[k] == session;
                            assert(false);
                        }
                    }
                    CmdEffect::Reply {
                        session: Session { id: session, ctl: Ctl::Response(ack) },
                    }
                } else {
                    proof {
                        if oldsessions.contains(session) {
                            let k = choose|k: int|
                                0 <= k < oldsessions.len() && oldsessions[k] == session;
                            assert(false);
                        }
                    }
                    CmdEffect::NoOp
                }
            },
        }
    }

    /// Takes in a control request a connected peer sent: the session is
    /// recorded as awaiting an answer, and the decision follows the
    /// auto-accept setting — act at once and answer success, or ask the
    /// user and answer that the request is waiting. A session frame that
    /// does not carry a request is left unhandled.
    pub fn handle_inbound_session(&mut self, meta: &PeerMetadata, body: Session) -> (r: Option<
        (CoreEvent, CtlResponse),
    >)
        requires
            old(self).wf(),
        ensures
            final(self).wf(),
            final(self)@ == (NodeView {
                sessions: if old(self)@.sessions.contains(body@.id) {
                    old(self)@.sessions
                } else {
                    old(self)@.sessions.push(body@.id)
                },
                ..old(self)@
            }),
            (body@.ctl matches CtlView::Request { req } ==> r matches Some((ev, resp))
                && (req matches CtlReqView::LaunchUri { uri } ==> if old(self)@.conf.auto_accept {
                ev@ == (CoreEventView::LaunchUri { id: meta@.id, session: body@.id, uri })
                    && resp == CtlResponse::Success
            } else {
                ev@ == (CoreEventView::AskLaunchUri { id: meta@.id, session: body@.id, uri })
                    && resp == CtlResponse::Waiting
            })),
            (body@.ctl is Response ==> r is None),
    {
        let ghost oldsessions = self@.sessions;
        let sid = body.id;
        let mut i: usize = 0;
        let mut present = false;
        while i < self.sessions.len() && !present
            invariant
                i <= self.sessions@.len(),
                !present ==> forall|j: int| 0 <= j < i ==> oldsessions[j] != sid,
                present ==> i < oldsessions.len() && oldsessions[i as int] == sid,
                self@.sessions == oldsessions,
            decreases self.sessions@.len() - i + (if present {
                0int
            } else {
                1int
            }),
        {
            if self.sessions[i] == sid {
                present = true;
            } else {
                i += 1;
            }
        }
        if present {
            proof {
                assert(oldsessions.contains(sid)) by {
                    assert(oldsessions[i as int] == sid);
                }
            }
        } else {
            proof {
                if oldsessions.contains(sid) {
                    let k = choose|k: int| 0 <= k < oldsessions.len() && oldsessions[k] == sid;
                    assert(false);
                }
            }
            self.sessions.push(sid);
            proof {
                assert(self@.sessions =~= oldsessions.push(sid));
                assert(self@.sessions[self@.sessions.len() - 1] == sid);
                assert forall|a: int, b: int|
                    0 <= a < b < self@.sessions.len() implies self@.sessions[a]
                    != self@.sessions[b] by {
                    if b == self@.sessions.len() - 1 {
                        assert(self@.sessions[b] == sid);
                        assert(oldsessions[a] != sid);
                    }
                }
            }
        }
        match body.ctl {
            Ctl::Request(CtlRequest::LaunchUri(uri)) => {
                if self.conf.auto_accept {
                    Some((
                        CoreEvent::LaunchUri(meta.id.duplicate(), sid, uri),
                        CtlResponse::Success,
                    ))
                } else {
                    Some((
                        CoreEvent::AskLaunchUri(meta.id.duplicate(), sid, uri),
                        CtlResponse::Waiting,
                    ))
                }
            },
            Ctl::Response(_) => None,
        }
    }

    /// Maps the answer that came back for one of this node's own
    /// requests to the event shown to the user. A session frame that
    /// does not carry a response is left unhandled.
    pub fn handle_session_result(&self, id: &PeerId, body: &Session) -> (r: Option<CoreEvent>)
        ensures
            (body@.ctl matches CtlView::Response { resp } ==> r matches Some(ev) && ev@ == (match resp {
                CtlResponse::Error(_) => CoreEventView::PeerCtlFailed { id: id@ },
                CtlResponse::Success => CoreEventView::PeerCtlSuccess { id: id@ },
                CtlResponse::Cancel => CoreEventView::PeerCtlCancel { id: id@ },
                CtlResponse::Waiting => CoreEventView::PeerCtlWaiting { id: id@ },
            })),
            (body@.ctl is Request ==> r is None),
    {
        match &body.ctl {
            Ctl::Response(resp) => Some(
                match resp {
                    CtlResponse::Error(_) => CoreEvent::PeerCtlFailed(id.duplicate()),
                    CtlResponse::Success => CoreEvent::PeerCtlSuccess(id.duplicate()),
                    CtlResponse::Cancel => CoreEvent::PeerCtlCancel(id.duplicate()),
                    CtlResponse::Waiting => CoreEvent::PeerCtlWaiting(id.duplicate()),
                },
            ),
            Ctl::Request(_) => None,
        }
    }

    /// Maps a manager event to the event shown to the user: a discovery
    /// is surfaced; a fresh connection is handled by the connection task
    /// the loop spawns for it; a disconnection is absorbed.
    pub fn handle_p2p(&self, event: &P2pEvent) -> (r: Option<CoreEvent>)
        ensures
            (event matches P2pEvent::PeerDiscovered(meta) ==> r matches Some(ev) && ev@
                == (CoreEventView::Discovered { meta: meta@ })),
            (event is PeerConnected ==> r is None),
            (event is PeerDisconnected ==> r is None),
    {
        match event {
            P2pEvent::PeerDiscovered(meta) => Some(CoreEvent::Discovered(meta.duplicate())),
            P2pEvent::PeerConnected(_) => None,
            P2pEvent::PeerDisconnected(_) => None,
        }
    }

    /// Builds the payload a pairing QR code carries: this node's
    /// metadata together with the pairing secret — the one handed in
    /// during the second stage of pairing, or a fresh random decimal
    /// secret for the first stage.
    pub fn make_qr_payload(&self, manager: &P2pManager, secret: Option<Vec<u8>>) -> (r: QrPayload)
        ensures
            r@.peer == manager@.metadata,
            (secret matches Some(s) ==> r@.secret == s@),
            (secret is None ==> r@.secret.len() >= 1),
    {
        let secret_bytes = match secret {
            Some(s) => s,
            None => u64_to_dec(rand::random::<u64>()),
        };
        QrPayload { secret: secret_bytes, peer: manager.get_metadata().duplicate() }
    }
}

} // verus!
