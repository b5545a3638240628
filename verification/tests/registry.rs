use flydrop::discovery::should_forward;
use flydrop::err::ConnError;
use flydrop::manager::{P2pConfig, P2pEvent, P2pManager};
use flydrop::pairing::PairingAuthenticator;
use flydrop::peer::{Addr, ConnectionType, DeviceType, Peer, PeerCandidate, PeerId, PeerMetadata};
use flydrop::proto::DiscoveryEvent;

fn manager_for(id: u8) -> P2pManager {
    let config = P2pConfig {
        id: PeerId::new(vec![id]),
        device: DeviceType::Desktop,
        name: vec![b'n', id],
        multicast: Addr { ip: 0xEFFF2A62, port: 50692 },
        p2p_addr: Addr { ip: 0x7F000001, port: 0 },
    };
    P2pManager::new(config, Addr { ip: 0x7F000001, port: 4000 + id as u16 })
}

fn meta_for(id: u8, port: u16) -> PeerMetadata {
    PeerMetadata {
        id: PeerId::new(vec![id]),
        device: DeviceType::Mobile,
        name: vec![b'p', id],
        addr: Addr { ip: 0x7F000001, port },
    }
}

fn pair(manager: &mut P2pManager, id: u8, port: u16, secret: &[u8]) {
    let meta = meta_for(id, port);
    let cand = PeerCandidate::new(&meta, PairingAuthenticator::new(secret.to_vec()));
    manager.add_known_peer(cand);
}

#[test]
fn fresh_manager_has_empty_registries() {
    let m = manager_for(1);
    let other = PeerId::new(vec![2]);
    assert!(!m.is_discovered(&other));
    assert!(!m.is_connected(&other));
    assert!(m.get_discovered_peers().is_empty());
    assert!(m.get_peer_candidate(&other).is_none());
}

#[test]
fn known_peer_is_found_by_accept_side() {
    let mut m = manager_for(1);
    pair(&mut m, 2, 5002, b"hello");
    let cand = m.get_peer_candidate(&PeerId::new(vec![2])).expect("known after pairing");
    assert_eq!(cand.id.bytes, vec![2]);
    assert_eq!(cand.metadata, meta_for(2, 5002));
}

#[test]
fn unpaired_discovery_is_discarded() {
    let mut m = manager_for(1);
    let ev = m.handle_peer_discovered(meta_for(9, 5009));
    assert!(ev.is_none());
    assert!(!m.is_discovered(&PeerId::new(vec![9])));
    assert!(m.get_discovered_peers().is_empty());
}

#[test]
fn paired_discovery_is_surfaced_once() {
    let mut m = manager_for(1);
    pair(&mut m, 2, 5002, b"hello");
    // the peer answers from a fresh ephemeral port
    let seen = meta_for(2, 6002);
    match m.handle_peer_discovered(seen.duplicate()) {
        Some(P2pEvent::PeerDiscovered(meta)) => assert_eq!(meta, seen),
        _ => panic!("expected a discovery event"),
    }
    assert!(m.is_discovered(&PeerId::new(vec![2])));
    let snapshot = m.get_discovered_peers();
    assert_eq!(snapshot.len(), 1);
    assert_eq!(snapshot[0], seen);
    // the discovered entry carries the freshly observed endpoint
    let cand = m.get_peer_candidate(&PeerId::new(vec![2])).unwrap();
    assert_eq!(cand.addrs, vec![Addr { ip: 0x7F000001, port: 6002 }]);
    // hearing the same peer again changes nothing
    assert!(m.handle_peer_discovered(meta_for(2, 7002)).is_none());
    assert_eq!(m.get_discovered_peers().len(), 1);
}

#[test]
fn connect_plan_errors() {
    let mut m = manager_for(1);
    let id2 = PeerId::new(vec![2]);
    assert!(matches!(m.connect_to_peer(&id2), Err(ConnError::NotFound)));
    pair(&mut m, 2, 5002, b"hello");
    // known but not yet discovered is still not found
    assert!(matches!(m.connect_to_peer(&id2), Err(ConnError::NotFound)));
    m.handle_peer_discovered(meta_for(2, 5002));
    let cand = m.connect_to_peer(&id2).expect("discovered peer is dialable");
    assert_eq!(cand.id.bytes, vec![2]);
    let peer = Peer::new(ConnectionType::Client, cand.metadata);
    m.handle_new_connection(peer);
    assert!(matches!(m.connect_to_peer(&id2), Err(ConnError::Dup)));
}

#[test]
fn connection_lifecycle_updates_registry() {
    let mut m = manager_for(1);
    let id2 = PeerId::new(vec![2]);
    let peer = Peer::new(ConnectionType::Server, meta_for(2, 5002));
    match m.handle_new_connection(peer) {
        P2pEvent::PeerConnected(p) => assert_eq!(p.id.bytes, vec![2]),
        _ => panic!("expected a connected event"),
    }
    assert!(m.is_connected(&id2));
    // recording the same id again keeps a single entry
    let again = Peer::new(ConnectionType::Client, meta_for(2, 5002));
    m.handle_new_connection(again);
    match m.peer_disconnected(&id2) {
        P2pEvent::PeerDisconnected(id) => assert_eq!(id.bytes, vec![2]),
        _ => panic!("expected a disconnected event"),
    }
    assert!(!m.is_connected(&id2));
}

#[test]
fn discovery_of_connected_peer_is_ignored() {
    let mut m = manager_for(1);
    pair(&mut m, 2, 5002, b"hello");
    m.handle_new_connection(Peer::new(ConnectionType::Server, meta_for(2, 5002)));
    assert!(m.handle_peer_discovered(meta_for(2, 5002)).is_none());
    assert!(!m.is_discovered(&PeerId::new(vec![2])));
}

#[test]
fn presence_request_carries_local_dedup() {
    let m = manager_for(1);
    match m.request_presence() {
        DiscoveryEvent::PresenceRequest(dedup) => assert_eq!(dedup, m.dedup),
        _ => panic!("expected a presence request"),
    }
}

#[test]
fn presence_response_carries_own_metadata() {
    let m = manager_for(1);
    match m.handle_presence_request() {
        DiscoveryEvent::PresenceResponse(meta) => assert_eq!(&meta, m.get_metadata()),
        _ => panic!("expected a presence response"),
    }
}

#[test]
fn self_echo_is_dropped() {
    let m = manager_for(1);
    let own = m.request_presence();
    assert!(!should_forward(m.dedup, &own));
    // requests from other processes and all responses pass
    assert!(should_forward(m.dedup, &DiscoveryEvent::PresenceRequest(m.dedup.wrapping_add(1))));
    assert!(should_forward(
        m.dedup,
        &DiscoveryEvent::PresenceResponse(meta_for(2, 5002)),
    ));
}

#[test]
fn repeated_requests_are_all_suppressed() {
    let m = manager_for(1);
    for _ in 0..3 {
        let own = m.request_presence();
        assert!(!should_forward(m.dedup, &own));
    }
}
