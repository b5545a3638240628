use flydrop::peer::{Addr, DeviceType, PeerId, PeerMetadata};
use flydrop::proto::{
    decode_connection, decode_discovery, decode_session, encode_connection, encode_discovery,
    encode_session, Connection, Ctl, CtlRequest, CtlResponse, Decoded, DiscoveryEvent, Session,
    AUTH_ERR,
};

fn sample_meta() -> PeerMetadata {
    PeerMetadata {
        id: PeerId::new(vec![0xAA, 0xBB]),
        device: DeviceType::Desktop,
        name: b"alpha".to_vec(),
        addr: Addr { ip: 0xC0A80101, port: 40400 },
    }
}

fn roundtrip_discovery(ev: DiscoveryEvent) {
    let bytes = encode_discovery(&ev);
    match decode_discovery(&bytes) {
        Decoded::Frame(back, used) => {
            assert_eq!(back, ev);
            assert_eq!(used, bytes.len());
        }
        _ => panic!("expected a full frame"),
    }
}

fn roundtrip_connection(c: Connection) {
    let bytes = encode_connection(&c);
    match decode_connection(&bytes) {
        Decoded::Frame(back, used) => {
            assert_eq!(back, c);
            assert_eq!(used, bytes.len());
        }
        _ => panic!("expected a full frame"),
    }
}

fn roundtrip_session(s: Session) {
    let bytes = encode_session(&s);
    match decode_session(&bytes) {
        Decoded::Frame(back, used) => {
            assert_eq!(back, s);
            assert_eq!(used, bytes.len());
        }
        _ => panic!("expected a full frame"),
    }
}

#[test]
fn discovery_request_roundtrip() {
    roundtrip_discovery(DiscoveryEvent::PresenceRequest(0xDEADBEEF));
}

#[test]
fn discovery_response_roundtrip() {
    roundtrip_discovery(DiscoveryEvent::PresenceResponse(sample_meta()));
}

#[test]
fn discovery_response_empty_fields_roundtrip() {
    roundtrip_discovery(DiscoveryEvent::PresenceResponse(PeerMetadata {
        id: PeerId::new(vec![]),
        device: DeviceType::Unknown,
        name: vec![],
        addr: Addr { ip: 0, port: 0 },
    }));
}

#[test]
fn connection_request_roundtrip() {
    roundtrip_connection(Connection::Request {
        id: PeerId::new(vec![1, 2, 3]),
        tag: vec![9; 32],
    });
}

#[test]
fn connection_response_roundtrip() {
    roundtrip_connection(Connection::Response(vec![7; 32]));
}

#[test]
fn connection_complete_request_roundtrip() {
    roundtrip_connection(Connection::CompleteRequest);
}

#[test]
fn connection_complete_response_roundtrip() {
    roundtrip_connection(Connection::CompleteResponse);
}

#[test]
fn connection_failure_roundtrip() {
    roundtrip_connection(Connection::Failure(AUTH_ERR));
}

#[test]
fn session_request_roundtrip() {
    roundtrip_session(Session {
        id: 42,
        ctl: Ctl::Request(CtlRequest::LaunchUri(b"https://x".to_vec())),
    });
}

#[test]
fn session_success_roundtrip() {
    roundtrip_session(Session { id: 7, ctl: Ctl::Response(CtlResponse::Success) });
}

#[test]
fn session_cancel_roundtrip() {
    roundtrip_session(Session { id: 8, ctl: Ctl::Response(CtlResponse::Cancel) });
}

#[test]
fn session_waiting_roundtrip() {
    roundtrip_session(Session { id: 9, ctl: Ctl::Response(CtlResponse::Waiting) });
}

#[test]
fn session_error_roundtrip() {
    roundtrip_session(Session { id: 10, ctl: Ctl::Response(CtlResponse::Error(5001)) });
}

#[test]
fn discovery_request_exact_bytes() {
    let bytes = encode_discovery(&DiscoveryEvent::PresenceRequest(0x01020304));
    assert_eq!(bytes, vec![0, 0, 0, 5, 0x00, 1, 2, 3, 4]);
}

#[test]
fn connection_failure_exact_bytes() {
    let bytes = encode_connection(&Connection::Failure(2001));
    assert_eq!(bytes, vec![0, 0, 0, 5, 0xFF, 0, 0, 0x07, 0xD1]);
}

#[test]
fn decode_empty_is_incomplete() {
    assert!(matches!(decode_discovery(&vec![]), Decoded::Incomplete));
    assert!(matches!(decode_connection(&vec![]), Decoded::Incomplete));
    assert!(matches!(decode_session(&vec![]), Decoded::Incomplete));
}

#[test]
fn decode_partial_frame_is_incomplete() {
    let bytes = encode_discovery(&DiscoveryEvent::PresenceResponse(sample_meta()));
    for cut in 0..bytes.len() {
        let partial: Vec<u8> = bytes[..cut].to_vec();
        assert!(matches!(decode_discovery(&partial), Decoded::Incomplete));
    }
}

#[test]
fn decode_bad_discriminant_is_malformed() {
    // a 1-byte payload with an unknown discriminant
    let buf = vec![0, 0, 0, 1, 0x42];
    assert!(matches!(decode_discovery(&buf), Decoded::Malformed));
    assert!(matches!(decode_connection(&buf), Decoded::Malformed));
}

#[test]
fn decode_short_dedup_is_malformed() {
    // presence request whose dedup field is truncated inside the payload
    let buf = vec![0, 0, 0, 3, 0x00, 1, 2];
    assert!(matches!(decode_discovery(&buf), Decoded::Malformed));
}

#[test]
fn decode_with_trailing_bytes_spans_one_frame() {
    let c = Connection::CompleteRequest;
    let mut bytes = encode_connection(&c);
    let framelen = bytes.len();
    bytes.extend_from_slice(&[1, 2, 3, 4]);
    match decode_connection(&bytes) {
        Decoded::Frame(back, used) => {
            assert_eq!(back, c);
            assert_eq!(used, framelen);
        }
        _ => panic!("expected a full frame"),
    }
}
