use flydrop::manager::{P2pConfig, P2pEvent, P2pManager};
use flydrop::node::{CmdEffect, CmdRequest, CoreEvent, NodeConfig, NodeCore, QrPayload};
use flydrop::peer::{Addr, ConnectionType, DeviceType, Peer, PeerId, PeerMetadata};
use flydrop::proto::{Ctl, CtlRequest, CtlResponse, Session};
use flydrop::node::u64_to_dec;

fn meta_for(id: u8, port: u16) -> PeerMetadata {
    PeerMetadata {
        id: PeerId::new(vec![id]),
        device: DeviceType::Mobile,
        name: vec![b'p', id],
        addr: Addr { ip: 0x7F000001, port },
    }
}

fn core_with_auto_accept(auto_accept: bool) -> NodeCore {
    let conf = NodeConfig {
        name: b"host".to_vec(),
        id: PeerId::new(vec![1]),
        known_peers: vec![],
        auto_accept,
    };
    NodeCore::new(conf)
}

#[test]
fn default_config_is_empty_and_asks_first() {
    let conf = NodeConfig::default();
    assert!(conf.name.is_empty());
    assert!(conf.id.bytes.is_empty());
    assert!(conf.known_peers.is_empty());
    assert!(!conf.auto_accept);
}

#[test]
fn config_known_peers_form_a_set() {
    let mut conf = NodeConfig::default();
    conf.insert_known_peer(meta_for(2, 5002));
    conf.insert_known_peer(meta_for(2, 5002));
    conf.insert_known_peer(meta_for(3, 5003));
    assert_eq!(conf.known_peers.len(), 2);
    let copy = conf.duplicate();
    assert_eq!(copy, conf);
}

#[test]
fn discovery_commands_toggle_the_presence_loop() {
    let mut core = core_with_auto_accept(false);
    assert!(matches!(core.handle_command(CmdRequest::StartDiscovery), CmdEffect::StartPresence));
    assert!(matches!(core.handle_command(CmdRequest::StartDiscovery), CmdEffect::NoOp));
    assert!(matches!(core.handle_command(CmdRequest::StopDiscovery), CmdEffect::StopPresence));
    assert!(matches!(core.handle_command(CmdRequest::StopDiscovery), CmdEffect::NoOp));
}

#[test]
fn session_ids_grow_strictly() {
    let mut core = core_with_auto_accept(false);
    let first = match core.handle_command(CmdRequest::SendPeer(
        PeerId::new(vec![2]),
        CtlRequest::LaunchUri(b"https://x".to_vec()),
    )) {
        CmdEffect::SendSession { id, session } => {
            assert_eq!(id.bytes, vec![2]);
            session.id
        }
        _ => panic!("expected a session to send"),
    };
    let second = match core.handle_command(CmdRequest::SendPeer(
        PeerId::new(vec![3]),
        CtlRequest::LaunchUri(b"https://y".to_vec()),
    )) {
        CmdEffect::SendSession { session, .. } => session.id,
        _ => panic!("expected a session to send"),
    };
    assert_eq!(first, 1);
    assert_eq!(second, 2);
    assert!(second > first);
}

#[test]
fn set_config_keeps_the_node_identity() {
    let mut core = core_with_auto_accept(false);
    let intruder = NodeConfig {
        name: b"renamed".to_vec(),
        id: PeerId::new(vec![99]),
        known_peers: vec![],
        auto_accept: true,
    };
    match core.handle_command(CmdRequest::SetConfig(intruder)) {
        CmdEffect::Persist { conf } => {
            assert_eq!(conf.id.bytes, vec![1]);
            assert_eq!(conf.name, b"renamed".to_vec());
            assert!(conf.auto_accept);
        }
        _ => panic!("expected a persist effect"),
    }
    assert_eq!(core.conf.id.bytes, vec![1]);
}

#[test]
fn pairing_registers_candidate_and_persists() {
    let mut core = core_with_auto_accept(false);
    let payload = QrPayload { secret: b"123456".to_vec(), peer: meta_for(2, 5002) };
    match core.handle_command(CmdRequest::Pair(payload)) {
        CmdEffect::PairPeer { candidate, conf } => {
            assert_eq!(candidate.id.bytes, vec![2]);
            assert_eq!(candidate.metadata, meta_for(2, 5002));
            assert_eq!(conf.known_peers, vec![meta_for(2, 5002)]);
        }
        _ => panic!("expected a pairing effect"),
    }
}

#[test]
fn inbound_session_auto_accept_succeeds() {
    let mut core = core_with_auto_accept(true);
    let body = Session { id: 7, ctl: Ctl::Request(CtlRequest::LaunchUri(b"https://x".to_vec())) };
    let (ev, resp) = core.handle_inbound_session(&meta_for(2, 5002), body).unwrap();
    assert_eq!(ev, CoreEvent::LaunchUri(PeerId::new(vec![2]), 7, b"https://x".to_vec()));
    assert_eq!(resp, CtlResponse::Success);
    assert_eq!(core.sessions, vec![7]);
}

#[test]
fn inbound_session_without_auto_accept_waits() {
    let mut core = core_with_auto_accept(false);
    let body = Session { id: 7, ctl: Ctl::Request(CtlRequest::LaunchUri(b"https://x".to_vec())) };
    let (ev, resp) = core.handle_inbound_session(&meta_for(2, 5002), body).unwrap();
    assert_eq!(ev, CoreEvent::AskLaunchUri(PeerId::new(vec![2]), 7, b"https://x".to_vec()));
    assert_eq!(resp, CtlResponse::Waiting);
}

#[test]
fn ack_answers_the_open_session_once() {
    let mut core = core_with_auto_accept(false);
    let body = Session { id: 7, ctl: Ctl::Request(CtlRequest::LaunchUri(b"https://x".to_vec())) };
    core.handle_inbound_session(&meta_for(2, 5002), body);
    match core.handle_command(CmdRequest::Ack(PeerId::new(vec![2]), 7, CtlResponse::Success)) {
        CmdEffect::Reply { session } => {
            assert_eq!(session, Session { id: 7, ctl: Ctl::Response(CtlResponse::Success) });
        }
        _ => panic!("expected a reply effect"),
    }
    assert!(core.sessions.is_empty());
    // acknowledging a session that is no longer open does nothing
    assert!(matches!(
        core.handle_command(CmdRequest::Ack(PeerId::new(vec![2]), 7, CtlResponse::Success)),
        CmdEffect::NoOp
    ));
}

#[test]
fn session_results_map_to_ui_events() {
    let core = core_with_auto_accept(false);
    let id = PeerId::new(vec![2]);
    let cases = [
        (CtlResponse::Success, CoreEvent::PeerCtlSuccess(PeerId::new(vec![2]))),
        (CtlResponse::Cancel, CoreEvent::PeerCtlCancel(PeerId::new(vec![2]))),
        (CtlResponse::Waiting, CoreEvent::PeerCtlWaiting(PeerId::new(vec![2]))),
        (CtlResponse::Error(5001), CoreEvent::PeerCtlFailed(PeerId::new(vec![2]))),
    ];
    for (resp, expected) in cases {
        let body = Session { id: 3, ctl: Ctl::Response(resp) };
        assert_eq!(core.handle_session_result(&id, &body), Some(expected));
    }
    // a request in the result position is left unhandled
    let odd = Session { id: 3, ctl: Ctl::Request(CtlRequest::LaunchUri(vec![])) };
    assert!(core.handle_session_result(&id, &odd).is_none());
}

#[test]
fn p2p_events_surface_only_discoveries() {
    let core = core_with_auto_accept(false);
    let seen = meta_for(2, 5002);
    let ev = core.handle_p2p(&P2pEvent::PeerDiscovered(seen.duplicate()));
    assert_eq!(ev, Some(CoreEvent::Discovered(seen)));
    let connected = P2pEvent::PeerConnected(Peer::new(ConnectionType::Server, meta_for(2, 5002)));
    assert!(core.handle_p2p(&connected).is_none());
    let gone = P2pEvent::PeerDisconnected(PeerId::new(vec![2]));
    assert!(core.handle_p2p(&gone).is_none());
}

#[test]
fn qr_payload_carries_given_secret_and_own_metadata() {
    let core = core_with_auto_accept(false);
    let config = P2pConfig {
        id: PeerId::new(vec![1]),
        device: DeviceType::Desktop,
        name: b"host".to_vec(),
        multicast: Addr { ip: 0xEFFF2A62, port: 50692 },
        p2p_addr: Addr { ip: 0x7F000001, port: 0 },
    };
    let manager = P2pManager::new(config, Addr { ip: 0x7F000001, port: 4001 });
    let payload = core.make_qr_payload(&manager, Some(b"123456".to_vec()));
    assert_eq!(payload.secret, b"123456".to_vec());
    assert_eq!(&payload.peer, manager.get_metadata());
    // a first-stage payload draws a non-empty decimal secret
    let fresh = core.make_qr_payload(&manager, None);
    assert!(!fresh.secret.is_empty());
    for d in fresh.secret {
        assert!(d.is_ascii_digit());
    }
}

#[test]
fn decimal_rendering_is_exact() {
    assert_eq!(u64_to_dec(0), b"0".to_vec());
    assert_eq!(u64_to_dec(7), b"7".to_vec());
    assert_eq!(u64_to_dec(1234567890), b"1234567890".to_vec());
    assert_eq!(u64_to_dec(u64::MAX), b"18446744073709551615".to_vec());
}

#[test]
fn multicast_range_check() {
    assert!(Addr { ip: 0xEFFF2A62, port: 50692 }.is_multicast_v4());
    assert!(Addr { ip: 0xE0000000, port: 1 }.is_multicast_v4());
    assert!(!Addr { ip: 0xF0000000, port: 1 }.is_multicast_v4());
    assert!(!Addr { ip: 0xC0A80101, port: 1 }.is_multicast_v4());
}
