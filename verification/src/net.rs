//! The three-round-trip mutual-authentication handshake.
//!
//! Both roles are small state machines over [`Connection`] frames; the
//! loop that moves frames over the socket and arms the one-second
//! receive deadline lives with the I/O, outside the library, and feeds
//! every frame, timeout, or stream close into these steps. The MAC key
//! for an attempt is the ASCII one-time password derived from the pairing
//! secret, so both sides must agree on the secret and on the current
//! 30-second window.
//!
//! Client: send `Request{local id, tag over local id}`; expect
//! `Response(tag over remote id)` and check it; send `CompleteRequest`;
//! expect `CompleteResponse`. Server mirrors it. Every timeout answers
//! with `Failure(TIMEOUT)`; an unknown initiator gets
//! `Failure(NOT_FOUND)`; a bad tag gets `Failure(AUTH)`; a received
//! `Failure(code)` is surfaced as such; anything else out of place fails
//! with a message error.

use vstd::prelude::*;
use crate::err::ConnError;
use crate::hmac;
use crate::pairing::totp_key;
use crate::peer::{CandView, MetaView, PeerCandidate, PeerId};
use crate::peer::PeerMetadata;
use crate::proto::{AUTH_ERR, ConnView, Connection, NOT_FOUND_ERR, TIMEOUT_ERR, conn_wf};

verus! {

/// What a handshake step decided: keep going, the connection is
/// established, or the attempt failed with the carried error.
#[derive(Clone, Copy, PartialEq, Eq, Structural, Debug)]
pub enum HsOutcome {
    Continue,
    Connected,
    Failed(ConnError),
}

/// Where the initiator stands.
#[derive(Clone, Copy, PartialEq, Eq, Structural, Debug)]
pub enum ClientState {
    SentRequest,
    SentComplete,
    Done,
    Failed,
}

/// Mathematical image of [`ClientHandshake`].
pub ghost struct ClientView {
    pub key: Seq<u8>,
    pub local_id: Seq<u8>,
    pub remote_id: Seq<u8>,
    pub state: ClientState,
}

/// The initiator's half of the handshake.
pub struct ClientHandshake {
    pub key: Vec<u8>,
    pub local_id: PeerId,
    pub remote_id: PeerId,
    pub state: ClientState,
}

impl View for ClientHandshake {
    type V = ClientView;

    open spec fn view(&self) -> ClientView {
        ClientView {
            key: self.key@,
            local_id: self.local_id@,
            remote_id: self.remote_id@,
            state: self.state,
        }
    }
}

/// How the initiator reacts to one inbound frame: the next state, the
/// frame to send back if any, and what the step decided.
pub open spec fn client_step(s: ClientView, f: ConnView) -> (ClientView, Option<ConnView>, HsOutcome) {
    match s.state {
        ClientState::SentRequest => match f {
            ConnView::Response { tag } => if tag == hmac::hmac_sha256(s.key, s.remote_id) {
                (
                    ClientView { state: ClientState::SentComplete, ..s },
                    Some(ConnView::CompleteRequest),
                    HsOutcome::Continue,
                )
            } else {
                (
                    ClientView { state: ClientState::Failed, ..s },
                    Some(ConnView::Failure { code: AUTH_ERR }),
                    HsOutcome::Failed(ConnError::Auth),
                )
            },
            ConnView::Failure { code } => (
                ClientView { state: ClientState::Failed, ..s },
                None,
                HsOutcome::Failed(ConnError::Failure(code)),
            ),
            _ => (
                ClientView { state: ClientState::Failed, ..s },
                None,
                HsOutcome::Failed(ConnError::Msg),
            ),
        },
        ClientState::SentComplete => match f {
            ConnView::CompleteResponse => (
                ClientView { state: ClientState::Done, ..s },
                None,
                HsOutcome::Connected,
            ),
            ConnView::Failure { code } => (
                ClientView { state: ClientState::Failed, ..s },
                None,
                HsOutcome::Failed(ConnError::Failure(code)),
            ),
            _ => (
                ClientView { state: ClientState::Failed, ..s },
                None,
                HsOutcome::Failed(ConnError::Msg),
            ),
        },
        _ => (s, None, HsOutcome::Failed(ConnError::Msg)),
    }
}

impl ClientHandshake {
    /// Opens the handshake towards `remote_id` under `key`: the returned
    /// frame carries the local identity and its tag under the key.
    pub fn start(local_id: PeerId, remote_id: PeerId, key: Vec<u8>) -> (r: (
        ClientHandshake,
        Connection,
    ))
        requires
            local_id@.len() + 41 < 0x100000000,
        ensures
            r.0@ == (ClientView {
                key: key@,
                local_id: local_id@,
                remote_id: remote_id@,
                state: ClientState::SentRequest,
            }),
            r.1@ == (ConnView::Request {
                id: local_id@,
                tag: hmac::hmac_sha256(key@, local_id@),
            }),
            conn_wf(r.1@),
    {
        let tag = hmac::sign(key.as_slice(), local_id.as_bytes());
        let frame = Connection::Request { id: local_id.duplicate(), tag };
        (ClientHandshake { key, local_id, remote_id, state: ClientState::SentRequest }, frame)
    }

    /// Feeds one inbound frame into the machine.
    pub fn on_frame(&mut self, f: &Connection) -> (r: (Option<Connection>, HsOutcome))
        requires
            old(self)@.state == ClientState::SentRequest || old(self)@.state
                == ClientState::SentComplete,
        ensures
            final(self)@ == client_step(old(self)@, f@).0,
            r.1 == client_step(old(self)@, f@).2,
            (r.0 matches Some(fr) ==> client_step(old(self)@, f@).1 == Some(fr@) && conn_wf(fr@)),
            (r.0 is None ==> client_step(old(self)@, f@).1 is None),
    {
        match self.state {
            ClientState::SentRequest => match f {
                Connection::Response(tag) => {
                    let ok = hmac::verify(
                        self.key.as_slice(),
                        self.remote_id.as_bytes(),
                        tag.as_slice(),
                    );
                    if ok {
                        self.state = ClientState::SentComplete;
                        (Some(Connection::CompleteRequest), HsOutcome::Continue)
                    } else {
                        self.state = ClientState::Failed;
                        (
                            Some(Connection::Failure(AUTH_ERR)),
                            HsOutcome::Failed(ConnError::Auth),
                        )
                    }
                },
                Connection::Failure(code) => {
                    self.state = ClientState::Failed;
                    (None, HsOutcome::Failed(ConnError::Failure(*code)))
                },
                _ => {
                    self.state = ClientState::Failed;
                    (None, HsOutcome::Failed(ConnError::Msg))
                },
            },
            ClientState::SentComplete => match f {
                Connection::CompleteResponse => {
                    self.state = ClientState::Done;
                    (None, HsOutcome::Connected)
                },
                Connection::Failure(code) => {
                    self.state = ClientState::Failed;
                    (None, HsOutcome::Failed(ConnError::Failure(*code)))
                },
                _ => {
                    self.state = ClientState::Failed;
                    (None, HsOutcome::Failed(ConnError::Msg))
                },
            },
            _ => (None, HsOutcome::Failed(ConnError::Msg)),
        }
    }

    /// The receive deadline passed: answer with a timeout refusal and
    /// give the attempt up.
    pub fn on_timeout(&mut self) -> (r: (Connection, HsOutcome))
        ensures
            final(self)@ == (ClientView { state: ClientState::Failed, ..old(self)@ }),
            r.0@ == (ConnView::Failure { code: TIMEOUT_ERR }),
            conn_wf(r.0@),
            r.1 == HsOutcome::Failed(ConnError::Timeout),
    {
        self.state = ClientState::Failed;
        (Connection::Failure(TIMEOUT_ERR), HsOutcome::Failed(ConnError::Timeout))
    }

    /// The peer closed the stream mid-handshake.
    pub fn on_close(&mut self) -> (r: HsOutcome)
        ensures
            final(self)@ == (ClientView { state: ClientState::Failed, ..old(self)@ }),
            r == HsOutcome::Failed(ConnError::Disconnect),
    {
        self.state = ClientState::Failed;
        HsOutcome::Failed(ConnError::Disconnect)
    }
}

/// Where the acceptor stands.
#[derive(Clone, Copy, PartialEq, Eq, Structural, Debug)]
pub enum ServerState {
    WaitRequest,
    WaitComplete,
    Done,
    Failed,
}

/// Mathematical image of [`ServerHandshake`].
pub ghost struct ServerView {
    pub key: Seq<u8>,
    pub local_id: Seq<u8>,
    pub remote: Option<MetaView>,
    pub state: ServerState,
}

/// The acceptor's half of the handshake.
pub struct ServerHandshake {
    pub key: Vec<u8>,
    pub local_id: PeerId,
    pub remote: Option<PeerMetadata>,
    pub state: ServerState,
}

/// The view of an optional candidate.
pub open spec fn opt_cand_view(c: Option<PeerCandidate>) -> Option<CandView> {
    match c {
        Some(cand) => Some(cand@),
        None => None,
    }
}

impl View for ServerHandshake {
    type V = ServerView;

    open spec fn view(&self) -> ServerView {
        ServerView {
            key: self.key@,
            local_id: self.local_id@,
            remote: match self.remote {
                Some(ref m) => Some(m@),
                None => None,
            },
            state: self.state,
        }
    }
}

/// How the acceptor reacts to the opening frame. `candidate` is what the
/// registry holds for the initiator's claimed identity; `now_secs` is the
/// wall-clock second the attempt is judged at.
pub open spec fn server_request_step(
    s: ServerView,
    f: ConnView,
    candidate: Option<CandView>,
    now_secs: u64,
) -> (ServerView, Option<ConnView>, HsOutcome) {
    match f {
        ConnView::Request { id, tag } => match candidate {
            None => (
                ServerView { state: ServerState::Failed, ..s },
                Some(ConnView::Failure { code: NOT_FOUND_ERR }),
                HsOutcome::Failed(ConnError::NotFound),
            ),
            Some(c) => {
                let key = totp_key(c.auth, now_secs);
                if tag == hmac::hmac_sha256(key, c.id) {
                    (
                        ServerView {
                            key,
                            local_id: s.local_id,
                            remote: Some(c.metadata),
                            state: ServerState::WaitComplete,
                        },
                        Some(ConnView::Response { tag: hmac::hmac_sha256(key, s.local_id) }),
                        HsOutcome::Continue,
                    )
                } else {
                    (
                        ServerView { state: ServerState::Failed, ..s },
                        Some(ConnView::Failure { code: AUTH_ERR }),
                        HsOutcome::Failed(ConnError::Auth),
                    )
                }
            },
        },
        ConnView::Failure { code } => (
            ServerView { state: ServerState::Failed, ..s },
            None,
            HsOutcome::Failed(ConnError::Failure(code)),
        ),
        _ => (
            ServerView { state: ServerState::Failed, ..s },
            None,
            HsOutcome::Failed(ConnError::Msg),
        ),
    }
}

/// How the acceptor reacts to the closing frame.
pub open spec fn server_complete_step(s: ServerView, f: ConnView) -> (
    ServerView,
    Option<ConnView>,
    HsOutcome,
) {
    match f {
        ConnView::CompleteRequest => (
            ServerView { state: ServerState::Done, ..s },
            Some(ConnView::CompleteResponse),
            HsOutcome::Connected,
        ),
        ConnView::Failure { code } => (
            ServerView { state: ServerState::Failed, ..s },
            None,
            HsOutcome::Failed(ConnError::Failure(code)),
        ),
        _ => (
            ServerView { state: ServerState::Failed, ..s },
            None,
            HsOutcome::Failed(ConnError::Msg),
        ),
    }
}

impl ServerHandshake {
    /// An acceptor ready for an initiator's opening frame.
    pub fn start(local_id: PeerId) -> (r: ServerHandshake)
        ensures
            r@ == (ServerView {
                key: Seq::<u8>::empty(),
                local_id: local_id@,
                remote: None,
                state: ServerState::WaitRequest,
            }),
    {
        ServerHandshake { key: Vec::new(), local_id, remote: None, state: ServerState::WaitRequest }
    }

    /// Judges the initiator's opening frame against what the registry
    /// holds for its claimed identity, at wall-clock second `now_secs`.
    pub fn on_request(&mut self, f: &Connection, candidate: Option<PeerCandidate>, now_secs: u64)
        -> (r: (Option<Connection>, HsOutcome))
        requires
            old(self)@.state == ServerState::WaitRequest,
        ensures
            final(self)@ == server_request_step(old(self)@, f@, opt_cand_view(candidate), now_secs).0,
            r.1 == server_request_step(old(self)@, f@, opt_cand_view(candidate), now_secs).2,
            (r.0 matches Some(fr) ==> server_request_step(old(self)@, f@, opt_cand_view(candidate), now_secs).1
                == Some(fr@) && conn_wf(fr@)),
            (r.0 is None ==> server_request_step(old(self)@, f@, opt_cand_view(candidate), now_secs).1 is None),
    {
        match f {
            Connection::Request { id: _, tag } => match candidate {
                None => {
                    self.state = ServerState::Failed;
                    (
                        Some(Connection::Failure(NOT_FOUND_ERR)),
                        HsOutcome::Failed(ConnError::NotFound),
                    )
                },
                Some(c) => {
                    let key = c.auth.generate(now_secs);
                    let ok = hmac::verify(key.as_slice(), c.id.as_bytes(), tag.as_slice());
                    if ok {
                        let resp_tag = hmac::sign(key.as_slice(), self.local_id.as_bytes());
                        self.key = key;
                        self.remote = Some(c.metadata);
                        self.state = ServerState::WaitComplete;
                        (Some(Connection::Response(resp_tag)), HsOutcome::Continue)
                    } else {
                        self.state = ServerState::Failed;
                        (
                            Some(Connection::Failure(AUTH_ERR)),
                            HsOutcome::Failed(ConnError::Auth),
                        )
                    }
                },
            },
            Connection::Failure(code) => {
                self.state = ServerState::Failed;
                (None, HsOutcome::Failed(ConnError::Failure(*code)))
            },
            _ => {
                self.state = ServerState::Failed;
                (None, HsOutcome::Failed(ConnError::Msg))
            },
        }
    }

    /// Feeds the closing frame into the machine.
    pub fn on_complete(&mut self, f: &Connection) -> (r: (Option<Connection>, HsOutcome))
        requires
            old(self)@.state == ServerState::WaitComplete,
        ensures
            final(self)@ == server_complete_step(old(self)@, f@).0,
            r.1 == server_complete_step(old(self)@, f@).2,
            (r.0 matches Some(fr) ==> server_complete_step(old(self)@, f@).1 == Some(fr@)
                && conn_wf(fr@)),
            (r.0 is None ==> server_complete_step(old(self)@, f@).1 is None),
    {
        match f {
            Connection::CompleteRequest => {
                self.state = ServerState::Done;
                (Some(Connection::CompleteResponse), HsOutcome::Connected)
            },
            Connection::Failure(code) => {
                self.state = ServerState::Failed;
                (None, HsOutcome::Failed(ConnError::Failure(*code)))
            },
            _ => {
                self.state = ServerState::Failed;
                (None, HsOutcome::Failed(ConnError::Msg))
            },
        }
    }

    /// The receive deadline passed: answer with a timeout refusal and
    /// give the attempt up.
    pub fn on_timeout(&mut self) -> (r: (Connection, HsOutcome))
        ensures
            final(self)@ == (ServerView { state: ServerState::Failed, ..old(self)@ }),
            r.0@ == (ConnView::Failure { code: TIMEOUT_ERR }),
            conn_wf(r.0@),
            r.1 == HsOutcome::Failed(ConnError::Timeout),
    {
        self.state = ServerState::Failed;
        (Connection::Failure(TIMEOUT_ERR), HsOutcome::Failed(ConnError::Timeout))
    }

    /// The peer closed the stream mid-handshake.
    pub fn on_close(&mut self) -> (r: HsOutcome)
        ensures
            final(self)@ == (ServerView { state: ServerState::Failed, ..old(self)@ }),
            r == HsOutcome::Failed(ConnError::Disconnect),
    {
        self.state = ServerState::Failed;
        HsOutcome::Failed(ConnError::Disconnect)
    }

    /// The authenticated remote metadata, once the handshake is done.
    pub fn into_remote(self) -> (r: Option<PeerMetadata>)
        ensures
            (r matches Some(m) ==> self@.remote == Some(m@)),
            (r is None ==> self@.remote is None),
    {
        self.remote
    }
}

/// Under one shared secret and one time window, the tag signed over an
/// identity is exactly the tag the other side accepts for that identity,
/// and every other tag is refused.
pub proof fn lemma_totp_mutual_auth(secret: Seq<u8>, now_secs: u64, id: Seq<u8>, tag: Seq<u8>)
    ensures
        hmac::tag_valid(
            totp_key(secret, now_secs),
            id,
            hmac::hmac_sha256(totp_key(secret, now_secs), id),
        ),
        tag != hmac::hmac_sha256(totp_key(secret, now_secs), id) ==> !hmac::tag_valid(
            totp_key(secret, now_secs),
            id,
            tag,
        ),
{
}

} // verus!
