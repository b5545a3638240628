use flydrop::err::ConnError;
use flydrop::hmac::{sign, verify};
use flydrop::net::{ClientHandshake, HsOutcome, ServerHandshake};
use flydrop::pairing::PairingAuthenticator;
use flydrop::peer::{Addr, DeviceType, PeerCandidate, PeerId, PeerMetadata};
use flydrop::proto::{
    decode_connection, encode_connection, Connection, Decoded, AUTH_ERR, NOT_FOUND_ERR,
    TIMEOUT_ERR,
};

fn meta_for(id: u8, port: u16) -> PeerMetadata {
    PeerMetadata {
        id: PeerId::new(vec![id]),
        device: DeviceType::Desktop,
        name: vec![b'n', id],
        addr: Addr { ip: 0x7F000001, port },
    }
}

// passes a frame through the wire codec, as the sockets would
fn over_wire(c: &Connection) -> Connection {
    let bytes = encode_connection(c);
    match decode_connection(&bytes) {
        Decoded::Frame(back, _) => back,
        _ => panic!("frame did not survive the wire"),
    }
}

#[test]
fn sign_verify_roundtrip() {
    let key = b"123456";
    let msg = b"some peer id";
    let tag = sign(key, msg);
    assert_eq!(tag.len(), 32);
    assert!(verify(key, msg, &tag));
}

#[test]
fn sign_is_not_the_message() {
    let key = b"123456";
    let msg = b"some peer id";
    let tag = sign(key, msg);
    assert_ne!(tag, msg.to_vec());
}

#[test]
fn verify_rejects_flipped_tag_bit() {
    let key = b"123456";
    let msg = b"some peer id";
    let mut tag = sign(key, msg);
    tag[0] ^= 0x01;
    assert!(!verify(key, msg, &tag));
}

#[test]
fn verify_rejects_flipped_id_bit() {
    let key = b"123456";
    let msg = b"some peer id";
    let tag = sign(key, msg);
    let mut other = msg.to_vec();
    other[0] ^= 0x01;
    assert!(!verify(key, &other, &tag));
}

#[test]
fn verify_rejects_other_key() {
    let tag = sign(b"123456", b"some peer id");
    assert!(!verify(b"654321", b"some peer id", &tag));
}

#[test]
fn totp_is_deterministic_within_a_window() {
    let auth = PairingAuthenticator::new(b"hello".to_vec());
    let a = auth.generate(60);
    let b = auth.generate(89);
    assert_eq!(a, b);
    let c = auth.generate(90);
    assert_ne!(a, c);
}

#[test]
fn totp_is_six_ascii_digits() {
    let auth = PairingAuthenticator::new(b"hello".to_vec());
    let code = auth.generate(1_000_000_000);
    assert_eq!(code.len(), 6);
    for d in code {
        assert!(d.is_ascii_digit());
    }
}

#[test]
fn totp_matches_reference_construction() {
    // recompute the one-time password from the MAC directly
    let secret = b"hello";
    let now: u64 = 1_234_567_890;
    let window = now / 30;
    let mut mac =
        <hmac::Hmac<sha2::Sha256> as hmac::Mac>::new_from_slice(secret).unwrap();
    hmac::Mac::update(&mut mac, &window.to_be_bytes());
    let h = hmac::Mac::finalize(mac).into_bytes();
    let off = (h[31] % 16) as usize;
    let v = ((h[off] as u32 & 0x7F) << 24)
        | ((h[off + 1] as u32) << 16)
        | ((h[off + 2] as u32) << 8)
        | (h[off + 3] as u32);
    let expected: Vec<u8> = format!("{:06}", v % 1_000_000).into_bytes();
    let auth = PairingAuthenticator::new(secret.to_vec());
    assert_eq!(auth.generate(now), expected);
}

#[test]
fn handshake_succeeds_with_shared_secret() {
    let secret = b"hello".to_vec();
    let now: u64 = 1_000_000;
    let meta_a = meta_for(1, 1111);

    // client a derives the window key from its candidate for b
    let auth_a = PairingAuthenticator::new(secret.clone());
    let key = auth_a.generate(now);
    let (mut client, request) =
        ClientHandshake::start(PeerId::new(vec![1]), PeerId::new(vec![2]), key);

    // server b holds a's candidate from pairing
    let mut server = ServerHandshake::start(PeerId::new(vec![2]));
    let cand_a = PeerCandidate::new(&meta_a, PairingAuthenticator::new(secret.clone()));
    let (reply, outcome) = server.on_request(&over_wire(&request), Some(cand_a), now);
    assert_eq!(outcome, HsOutcome::Continue);
    let response = reply.expect("server answers the request");

    let (reply, outcome) = client.on_frame(&over_wire(&response));
    assert_eq!(outcome, HsOutcome::Continue);
    let complete = reply.expect("client completes");
    assert_eq!(complete, Connection::CompleteRequest);

    let (reply, outcome) = server.on_complete(&over_wire(&complete));
    assert_eq!(outcome, HsOutcome::Connected);
    let complete_resp = reply.expect("server confirms");
    assert_eq!(complete_resp, Connection::CompleteResponse);

    let (reply, outcome) = client.on_frame(&over_wire(&complete_resp));
    assert_eq!(outcome, HsOutcome::Connected);
    assert!(reply.is_none());

    let remote = server.into_remote().expect("server keeps the remote metadata");
    assert_eq!(remote, meta_a);
}

#[test]
fn handshake_fails_on_wrong_secret() {
    let now: u64 = 1_000_000;
    let meta_a = meta_for(1, 1111);

    let auth_a = PairingAuthenticator::new(b"hello".to_vec());
    let key = auth_a.generate(now);
    let (mut client, request) =
        ClientHandshake::start(PeerId::new(vec![1]), PeerId::new(vec![2]), key);

    // the acceptor paired with a different secret
    let mut server = ServerHandshake::start(PeerId::new(vec![2]));
    let cand_a = PeerCandidate::new(&meta_a, PairingAuthenticator::new(b"world".to_vec()));
    let (reply, outcome) = server.on_request(&over_wire(&request), Some(cand_a), now);
    assert_eq!(outcome, HsOutcome::Failed(ConnError::Auth));
    let failure = reply.expect("server refuses");
    assert_eq!(failure, Connection::Failure(AUTH_ERR));

    let (reply, outcome) = client.on_frame(&over_wire(&failure));
    assert!(reply.is_none());
    assert_eq!(outcome, HsOutcome::Failed(ConnError::Failure(AUTH_ERR)));
}

#[test]
fn handshake_fails_across_windows() {
    // client and server judge the attempt in different 30-second windows
    let meta_a = meta_for(1, 1111);
    let auth_a = PairingAuthenticator::new(b"hello".to_vec());
    let key = auth_a.generate(0);
    let (_client, request) =
        ClientHandshake::start(PeerId::new(vec![1]), PeerId::new(vec![2]), key);

    let mut server = ServerHandshake::start(PeerId::new(vec![2]));
    let cand_a = PeerCandidate::new(&meta_a, PairingAuthenticator::new(b"hello".to_vec()));
    let (_, outcome) = server.on_request(&over_wire(&request), Some(cand_a), 90);
    assert_eq!(outcome, HsOutcome::Failed(ConnError::Auth));
}

#[test]
fn handshake_refuses_unknown_initiator() {
    let now: u64 = 55;
    let auth_c = PairingAuthenticator::new(b"whatever".to_vec());
    let key = auth_c.generate(now);
    let (_client, request) =
        ClientHandshake::start(PeerId::new(vec![9]), PeerId::new(vec![2]), key);

    let mut server = ServerHandshake::start(PeerId::new(vec![2]));
    let (reply, outcome) = server.on_request(&over_wire(&request), None, now);
    assert_eq!(outcome, HsOutcome::Failed(ConnError::NotFound));
    assert_eq!(reply.expect("server refuses"), Connection::Failure(NOT_FOUND_ERR));
}

#[test]
fn handshake_timeout_sends_failure() {
    let auth = PairingAuthenticator::new(b"hello".to_vec());
    let (mut client, _) =
        ClientHandshake::start(PeerId::new(vec![1]), PeerId::new(vec![2]), auth.generate(0));
    let (frame, outcome) = client.on_timeout();
    assert_eq!(frame, Connection::Failure(TIMEOUT_ERR));
    assert_eq!(outcome, HsOutcome::Failed(ConnError::Timeout));

    let mut server = ServerHandshake::start(PeerId::new(vec![2]));
    let (frame, outcome) = server.on_timeout();
    assert_eq!(frame, Connection::Failure(TIMEOUT_ERR));
    assert_eq!(outcome, HsOutcome::Failed(ConnError::Timeout));
}

#[test]
fn handshake_close_is_disconnect() {
    let auth = PairingAuthenticator::new(b"hello".to_vec());
    let (mut client, _) =
        ClientHandshake::start(PeerId::new(vec![1]), PeerId::new(vec![2]), auth.generate(0));
    assert_eq!(client.on_close(), HsOutcome::Failed(ConnError::Disconnect));
}

#[test]
fn handshake_rejects_out_of_place_message() {
    let auth = PairingAuthenticator::new(b"hello".to_vec());
    let (mut client, _) =
        ClientHandshake::start(PeerId::new(vec![1]), PeerId::new(vec![2]), auth.generate(0));
    let (reply, outcome) = client.on_frame(&Connection::CompleteResponse);
    assert!(reply.is_none());
    assert_eq!(outcome, HsOutcome::Failed(ConnError::Msg));
}
