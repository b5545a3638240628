//! Wire protocol: frames and their codecs.
//!
//! Both codecs are length-prefixed: a frame is a big-endian `u32` payload
//! length followed by the payload, whose first byte is a variant
//! discriminant. Variable-length fields inside a payload (identifiers,
//! names, tags) carry their own big-endian `u32` length prefix; an IPv4
//! endpoint is four address bytes followed by a big-endian port.
//!
//! Decoding distinguishes a recoverable shortfall (the buffer does not yet
//! hold the whole frame: wait for more bytes) from a malformed payload
//! (close the connection).

use vstd::prelude::*;
use crate::peer::{Addr, DeviceType, MetaView, PeerId, PeerMetadata};

verus! {

/// Failure code sent when a handshake step exceeded its deadline.
pub const TIMEOUT_ERR: u32 = 2001;

/// Failure code sent to a connecting peer that is neither known nor
/// discovered.
pub const NOT_FOUND_ERR: u32 = 2002;

/// Failure code sent when a handshake tag fails verification.
pub const AUTH_ERR: u32 = 2003;

// ---------------------------------------------------------------------------
// Big-endian integers
// ---------------------------------------------------------------------------

/// The four big-endian bytes of `n`.
pub open spec fn enc_u32(n: u32) -> Seq<u8> {
    seq![
        (n as int / 0x1000000) as u8,
        ((n as int / 0x10000) % 0x100) as u8,
        ((n as int / 0x100) % 0x100) as u8,
        (n as int % 0x100) as u8,
    ]
}

/// The `u32` spelled by the first four bytes of `s`, big-endian.
pub open spec fn dec_u32(s: Seq<u8>) -> u32
    recommends
        s.len() >= 4,
{
    (s[0] as int * 0x1000000 + s[1] as int * 0x10000 + s[2] as int * 0x100 + s[3] as int) as u32
}

/// The two big-endian bytes of `n`.
pub open spec fn enc_u16(n: u16) -> Seq<u8> {
    seq![(n as int / 0x100) as u8, (n as int % 0x100) as u8]
}

/// The `u16` spelled by the first two bytes of `s`, big-endian.
pub open spec fn dec_u16(s: Seq<u8>) -> u16
    recommends
        s.len() >= 2,
{
    (s[0] as int * 0x100 + s[1] as int) as u16
}

/// Reading back the four bytes of `n` yields `n`.
pub proof fn lemma_u32_roundtrip(n: u32)
    ensures
        dec_u32(enc_u32(n)) == n,
{
    assert(n / 0x1000000 < 0x100) by (bit_vector);
    assert((n / 0x1000000) * 0x1000000 + (n / 0x10000) % 0x100 * 0x10000 + (n / 0x100) % 0x100
        * 0x100 + n % 0x100 == n) by (bit_vector);
}

/// Reading back the two bytes of `n` yields `n`.
pub proof fn lemma_u16_roundtrip(n: u16)
    ensures
        dec_u16(enc_u16(n)) == n,
{
    assert(n / 0x100 < 0x100) by (bit_vector);
    assert((n / 0x100) * 0x100 + n % 0x100 == n) by (bit_vector);
}

/// Appends the four big-endian bytes of `n`.
pub fn push_u32(out: &mut Vec<u8>, n: u32)
    ensures
        final(out)@ == old(out)@ + enc_u32(n),
{
    out.push((n / 0x1000000) as u8);
    out.push(((n / 0x10000) % 0x100) as u8);
    out.push(((n / 0x100) % 0x100) as u8);
    out.push((n % 0x100) as u8);
    proof {
        assert(out@ =~= old(out)@ + enc_u32(n));
    }
}

/// Appends the two big-endian bytes of `n`.
pub fn push_u16(out: &mut Vec<u8>, n: u16)
    ensures
        final(out)@ == old(out)@ + enc_u16(n),
{
    out.push((n / 0x100) as u8);
    out.push((n % 0x100) as u8);
    proof {
        assert(out@ =~= old(out)@ + enc_u16(n));
    }
}

/// Appends all of `b`.
pub fn push_bytes(out: &mut Vec<u8>, b: &[u8])
    ensures
        final(out)@ == old(out)@ + b@,
{
    let mut i: usize = 0;
    while i < b.len()
        invariant
            i <= b@.len(),
            out@ == old(out)@ + b@.subrange(0, i as int),
        decreases b@.len() - i,
    {
        out.push(b[i]);
        proof {
            assert(out@ =~= old(out)@ + b@.subrange(0, i + 1));
        }
        i += 1;
    }
    proof {
        assert(b@.subrange(0, b@.len() as int) =~= b@);
    }
}

/// Reads the big-endian `u32` at `off`.
pub fn read_u32(buf: &Vec<u8>, off: usize) -> (r: u32)
    requires
        off + 4 <= buf@.len(),
    ensures
        r == dec_u32(buf@.subrange(off as int, off as int + 4)),
{
    let blen: usize = buf.len();
    let r = (buf[off] as u32) * 0x1000000 + (buf[off + 1] as u32) * 0x10000 + (buf[off + 2] as u32)
        * 0x100 + (buf[off + 3] as u32);
    proof {
        let s = buf@.subrange(off as int, off as int + 4);
        assert(s[0] == buf@[off as int] && s[1] == buf@[off as int + 1] && s[2] == buf@[off as int
            + 2] && s[3] == buf@[off as int + 3]);
    }
    r
}

/// Reads the big-endian `u16` at `off`.
pub fn read_u16(buf: &Vec<u8>, off: usize) -> (r: u16)
    requires
        off + 2 <= buf@.len(),
    ensures
        r == dec_u16(buf@.subrange(off as int, off as int + 2)),
{
    let blen: usize = buf.len();
    let r = (buf[off] as u16) * 0x100 + (buf[off + 1] as u16);
    proof {
        let s = buf@.subrange(off as int, off as int + 2);
        assert(s[0] == buf@[off as int] && s[1] == buf@[off as int + 1]);
    }
    r
}

/// Copies `n` bytes starting at `off` into a fresh vector.
pub fn read_bytes(buf: &Vec<u8>, off: usize, n: usize) -> (r: Vec<u8>)
    requires
        off + n <= buf@.len(),
    ensures
        r@ == buf@.subrange(off as int, off as int + n as int),
{
    let blen: usize = buf.len();
    let mut r: Vec<u8> = Vec::new();
    let mut i: usize = 0;
    while i < n
        invariant
            i <= n,
            off + n <= blen,
            blen == buf@.len(),
            r@ == buf@.subrange(off as int, off as int + i as int),
        decreases n - i,
    {
        r.push(buf[off + i]);
        proof {
            assert(r@ =~= buf@.subrange(off as int, off as int + i as int + 1));
        }
        i += 1;
    }
    r
}

// ---------------------------------------------------------------------------
// Frames
// ---------------------------------------------------------------------------

/// Mathematical image of [`DiscoveryEvent`].
pub ghost enum DiscView {
    Request { dedup: u32 },
    Response { meta: MetaView },
}

/// A discovery datagram: either a presence request stamped with the
/// sender's per-process dedup nonce, or a presence response carrying the
/// sender's metadata.
#[derive(Debug, PartialEq, Eq)]
pub enum DiscoveryEvent {
    PresenceRequest(u32),
    PresenceResponse(PeerMetadata),
}

impl View for DiscoveryEvent {
    type V = DiscView;

    open spec fn view(&self) -> DiscView {
        match self {
            DiscoveryEvent::PresenceRequest(dedup) => DiscView::Request { dedup: *dedup },
            DiscoveryEvent::PresenceResponse(meta) => DiscView::Response { meta: meta@ },
        }
    }
}

/// Mathematical image of [`Connection`].
pub ghost enum ConnView {
    Request { id: Seq<u8>, tag: Seq<u8> },
    Response { tag: Seq<u8> },
    CompleteRequest,
    CompleteResponse,
    Failure { code: u32 },
}

/// A handshake message on an established TCP stream.
#[derive(Debug, PartialEq, Eq)]
pub enum Connection {
    /// The initiator's identity together with its MAC tag over that
    /// identity.
    Request { id: PeerId, tag: Vec<u8> },
    /// The acceptor's MAC tag over its own identity.
    Response(Vec<u8>),
    CompleteRequest,
    CompleteResponse,
    /// A refusal, carrying one of the well-known failure codes.
    Failure(u32),
}

impl View for Connection {
    type V = ConnView;

    open spec fn view(&self) -> ConnView {
        match self {
            Connection::Request { id, tag } => ConnView::Request { id: id@, tag: tag@ },
            Connection::Response(tag) => ConnView::Response { tag: tag@ },
            Connection::CompleteRequest => ConnView::CompleteRequest,
            Connection::CompleteResponse => ConnView::CompleteResponse,
            Connection::Failure(code) => ConnView::Failure { code: *code },
        }
    }
}

// ---------------------------------------------------------------------------
// Spec encoders
// ---------------------------------------------------------------------------

/// The discriminant byte of a device class.
pub open spec fn dev_byte(d: DeviceType) -> u8 {
    match d {
        DeviceType::Desktop => 0,
        DeviceType::Mobile => 1,
        DeviceType::Unknown => 2,
    }
}

/// The device class a discriminant byte stands for, if any.
pub open spec fn dev_of(b: u8) -> Option<DeviceType> {
    if b == 0 {
        Some(DeviceType::Desktop)
    } else if b == 1 {
        Some(DeviceType::Mobile)
    } else if b == 2 {
        Some(DeviceType::Unknown)
    } else {
        None
    }
}

/// Metadata fields short enough for their length prefixes.
pub open spec fn meta_wf(m: MetaView) -> bool {
    m.id.len() + m.name.len() + 16 < 0x100000000
}

/// The serialized form of peer metadata: length-prefixed id, device byte,
/// length-prefixed name, then the advertised IPv4 endpoint.
pub open spec fn enc_meta(m: MetaView) -> Seq<u8> {
    enc_u32(m.id.len() as u32) + m.id + seq![dev_byte(m.device)] + enc_u32(m.name.len() as u32)
        + m.name + enc_u32(m.addr.ip) + enc_u16(m.addr.port)
}

/// The payload of a discovery frame.
pub open spec fn enc_disc_payload(d: DiscView) -> Seq<u8> {
    match d {
        DiscView::Request { dedup } => seq![0u8] + enc_u32(dedup),
        DiscView::Response { meta } => seq![1u8] + enc_meta(meta),
    }
}

/// A discovery event whose encoded payload length fits the frame header.
pub open spec fn disc_wf(d: DiscView) -> bool {
    match d {
        DiscView::Request { .. } => true,
        DiscView::Response { meta } => meta_wf(meta),
    }
}

/// A length-prefixed frame around `payload`.
pub open spec fn enc_frame(payload: Seq<u8>) -> Seq<u8>
    recommends
        payload.len() < 0x100000000,
{
    enc_u32(payload.len() as u32) + payload
}

/// The full wire form of a discovery event.
pub open spec fn enc_disc_frame(d: DiscView) -> Seq<u8> {
    enc_frame(enc_disc_payload(d))
}

/// The payload of a connection frame.
pub open spec fn enc_conn_payload(c: ConnView) -> Seq<u8> {
    match c {
        ConnView::Request { id, tag } => seq![0u8] + enc_u32(id.len() as u32) + id + enc_u32(
            tag.len() as u32,
        ) + tag,
        ConnView::Response { tag } => seq![1u8] + enc_u32(tag.len() as u32) + tag,
        ConnView::CompleteRequest => seq![2u8],
        ConnView::CompleteResponse => seq![3u8],
        ConnView::Failure { code } => seq![255u8] + enc_u32(code),
    }
}

/// A connection message whose encoded payload length fits the frame header.
pub open spec fn conn_wf(c: ConnView) -> bool {
    match c {
        ConnView::Request { id, tag } => id.len() + tag.len() + 9 < 0x100000000,
        ConnView::Response { tag } => tag.len() + 5 < 0x100000000,
        ConnView::CompleteRequest => true,
        ConnView::CompleteResponse => true,
        ConnView::Failure { .. } => true,
    }
}

/// The full wire form of a connection message.
pub open spec fn enc_conn_frame(c: ConnView) -> Seq<u8> {
    enc_frame(enc_conn_payload(c))
}

// ---------------------------------------------------------------------------
// Exec encoders
// ---------------------------------------------------------------------------

/// The discriminant byte of a device class.
pub fn device_to_byte(d: DeviceType) -> (r: u8)
    ensures
        r == dev_byte(d),
{
    match d {
        DeviceType::Desktop => 0,
        DeviceType::Mobile => 1,
        DeviceType::Unknown => 2,
    }
}

/// The device class a discriminant byte stands for, if any.
pub fn byte_to_device(b: u8) -> (r: Option<DeviceType>)
    ensures
        r == dev_of(b),
{
    if b == 0 {
        Some(DeviceType::Desktop)
    } else if b == 1 {
        Some(DeviceType::Mobile)
    } else if b == 2 {
        Some(DeviceType::Unknown)
    } else {
        None
    }
}

/// Appends the serialized form of `m`.
pub fn encode_meta(out: &mut Vec<u8>, m: &PeerMetadata)
    requires
        meta_wf(m@),
    ensures
        final(out)@ == old(out)@ + enc_meta(m@),
{
    push_u32(out, m.id.bytes.len() as u32);
    push_bytes(out, m.id.as_bytes());
    let db = device_to_byte(m.device);
    out.push(db);
    push_u32(out, m.name.len() as u32);
    push_bytes(out, m.name.as_slice());
    push_u32(out, m.addr.ip);
    push_u16(out, m.addr.port);
    proof {
        assert(out@ =~= old(out)@ + enc_meta(m@));
    }
}

/// Encodes a discovery event as one wire frame.
pub fn encode_discovery(d: &DiscoveryEvent) -> (r: Vec<u8>)
    requires
        disc_wf(d@),
    ensures
        r@ == enc_disc_frame(d@),
{
    let mut payload: Vec<u8> = Vec::new();
    match d {
        DiscoveryEvent::PresenceRequest(dedup) => {
            payload.push(0);
            push_u32(&mut payload, *dedup);
        },
        DiscoveryEvent::PresenceResponse(meta) => {
            payload.push(1);
            encode_meta(&mut payload, meta);
        },
    }
    proof {
        assert(payload@ =~= enc_disc_payload(d@));
    }
    let mut out: Vec<u8> = Vec::new();
    push_u32(&mut out, payload.len() as u32);
    push_bytes(&mut out, payload.as_slice());
    out
}

/// Encodes a connection message as one wire frame.
pub fn encode_connection(c: &Connection) -> (r: Vec<u8>)
    requires
        conn_wf(c@),
    ensures
        r@ == enc_conn_frame(c@),
{
    let mut payload: Vec<u8> = Vec::new();
    match c {
        Connection::Request { id, tag } => {
            payload.push(0);
            push_u32(&mut payload, id.bytes.len() as u32);
            push_bytes(&mut payload, id.as_bytes());
            push_u32(&mut payload, tag.len() as u32);
            push_bytes(&mut payload, tag.as_slice());
        },
        Connection::Response(tag) => {
            payload.push(1);
            push_u32(&mut payload, tag.len() as u32);
            push_bytes(&mut payload, tag.as_slice());
        },
        Connection::CompleteRequest => {
            payload.push(2);
        },
        Connection::CompleteResponse => {
            payload.push(3);
        },
        Connection::Failure(code) => {
            payload.push(255);
            push_u32(&mut payload, *code);
        },
    }
    proof {
        assert(payload@ =~= enc_conn_payload(c@));
    }
    let mut out: Vec<u8> = Vec::new();
    push_u32(&mut out, payload.len() as u32);
    push_bytes(&mut out, payload.as_slice());
    out
}

/// Control-plane failure code for a request that could not be delivered
/// to the application.
pub const CTL_UNKNOWN_ERR: u32 = 5001;

/// A control request a peer can send over a session.
#[derive(Debug, PartialEq, Eq)]
pub enum CtlRequest {
    /// Ask the remote device to open the given URI (UTF-8 bytes).
    LaunchUri(Vec<u8>),
}

/// Mathematical image of [`CtlRequest`].
pub ghost enum CtlReqView {
    LaunchUri { uri: Seq<u8> },
}

impl View for CtlRequest {
    type V = CtlReqView;

    open spec fn view(&self) -> CtlReqView {
        match self {
            CtlRequest::LaunchUri(uri) => CtlReqView::LaunchUri { uri: uri@ },
        }
    }
}

/// How the remote application answered a control request.
#[derive(Clone, Copy, PartialEq, Eq, Structural, Debug)]
pub enum CtlResponse {
    Success,
    Cancel,
    Waiting,
    Error(u32),
}

/// One direction of a control exchange.
#[derive(Debug, PartialEq, Eq)]
pub enum Ctl {
    Request(CtlRequest),
    Response(CtlResponse),
}

/// Mathematical image of [`Ctl`].
pub ghost enum CtlView {
    Request { req: CtlReqView },
    Response { resp: CtlResponse },
}

impl View for Ctl {
    type V = CtlView;

    open spec fn view(&self) -> CtlView {
        match self {
            Ctl::Request(req) => CtlView::Request { req: req@ },
            Ctl::Response(resp) => CtlView::Response { resp: *resp },
        }
    }
}

/// One request/response pair over an established connection, tagged with
/// the id the requesting node assigned to it.
#[derive(Debug, PartialEq, Eq)]
pub struct Session {
    pub id: u64,
    pub ctl: Ctl,
}

/// Mathematical image of [`Session`].
pub ghost struct SessView {
    pub id: u64,
    pub ctl: CtlView,
}

impl View for Session {
    type V = SessView;

    open spec fn view(&self) -> SessView {
        SessView { id: self.id, ctl: self.ctl@ }
    }
}

// ---------------------------------------------------------------------------
// Spec parsers
// ---------------------------------------------------------------------------

/// The big-endian `u32` at offset `off` of `s`.
pub open spec fn dec_u32_at(s: Seq<u8>, off: int) -> u32
    recommends
        0 <= off,
        off + 4 <= s.len(),
{
    dec_u32(s.subrange(off, off + 4))
}

/// The big-endian `u16` at offset `off` of `s`.
pub open spec fn dec_u16_at(s: Seq<u8>, off: int) -> u16
    recommends
        0 <= off,
        off + 2 <= s.len(),
{
    dec_u16(s.subrange(off, off + 2))
}

/// What a framed decoder says about a buffer: not yet a whole frame, a
/// frame it cannot make sense of, or a value plus how many bytes it spans.
pub ghost enum Parsed<T> {
    Incomplete,
    Malformed,
    Frame { v: T, used: int },
}

/// Reads serialized peer metadata spanning exactly all of `p`.
pub open spec fn parse_meta(p: Seq<u8>) -> Option<MetaView> {
    if p.len() < 4 {
        None
    } else {
        let idlen = dec_u32(p) as int;
        if p.len() < 4 + idlen + 1 {
            None
        } else {
            let id = p.subrange(4, 4 + idlen);
            match dev_of(p[4 + idlen]) {
                None => None,
                Some(device) => {
                    let o = 5 + idlen;
                    if p.len() < o + 4 {
                        None
                    } else {
                        let namelen = dec_u32_at(p, o) as int;
                        if p.len() != o + 4 + namelen + 6 {
                            None
                        } else {
                            let name = p.subrange(o + 4, o + 4 + namelen);
                            let ip = dec_u32_at(p, o + 4 + namelen);
                            let port = dec_u16_at(p, o + 4 + namelen + 4);
                            Some(MetaView { id, device, name, addr: Addr { ip, port } })
                        }
                    }
                },
            }
        }
    }
}

/// Reads a discovery payload spanning exactly all of `p`.
pub open spec fn parse_disc_payload(p: Seq<u8>) -> Option<DiscView> {
    if p.len() < 1 {
        None
    } else if p[0] == 0 {
        if p.len() == 5 {
            Some(DiscView::Request { dedup: dec_u32_at(p, 1) })
        } else {
            None
        }
    } else if p[0] == 1 {
        match parse_meta(p.subrange(1, p.len() as int)) {
            Some(meta) => Some(DiscView::Response { meta }),
            None => None,
        }
    } else {
        None
    }
}

/// Reads one discovery frame off the front of `b`.
pub open spec fn parse_disc_frame(b: Seq<u8>) -> Parsed<DiscView> {
    if b.len() < 4 {
        Parsed::Incomplete
    } else {
        let n = dec_u32(b) as int;
        if b.len() - 4 < n {
            Parsed::Incomplete
        } else {
            match parse_disc_payload(b.subrange(4, 4 + n)) {
                Some(v) => Parsed::Frame { v, used: 4 + n },
                None => Parsed::Malformed,
            }
        }
    }
}

/// Reads a connection payload spanning exactly all of `p`.
pub open spec fn parse_conn_payload(p: Seq<u8>) -> Option<ConnView> {
    if p.len() < 1 {
        None
    } else if p[0] == 0 {
        if p.len() < 5 {
            None
        } else {
            let idlen = dec_u32_at(p, 1) as int;
            if p.len() < 9 + idlen {
                None
            } else {
                let taglen = dec_u32_at(p, 5 + idlen) as int;
                if p.len() != 9 + idlen + taglen {
                    None
                } else {
                    Some(
                        ConnView::Request {
                            id: p.subrange(5, 5 + idlen),
                            tag: p.subrange(9 + idlen, 9 + idlen + taglen),
                        },
                    )
                }
            }
        }
    } else if p[0] == 1 {
        if p.len() < 5 {
            None
        } else {
            let taglen = dec_u32_at(p, 1) as int;
            if p.len() != 5 + taglen {
                None
            } else {
                Some(ConnView::Response { tag: p.subrange(5, 5 + taglen) })
            }
        }
    } else if p[0] == 2 {
        if p.len() == 1 {
            Some(ConnView::CompleteRequest)
        } else {
            None
        }
    } else if p[0] == 3 {
        if p.len() == 1 {
            Some(ConnView::CompleteResponse)
        } else {
            None
        }
    } else if p[0] == 255 {
        if p.len() == 5 {
            Some(ConnView::Failure { code: dec_u32_at(p, 1) })
        } else {
            None
        }
    } else {
        None
    }
}

/// Reads one connection frame off the front of `b`.
pub open spec fn parse_conn_frame(b: Seq<u8>) -> Parsed<ConnView> {
    if b.len() < 4 {
        Parsed::Incomplete
    } else {
        let n = dec_u32(b) as int;
        if b.len() - 4 < n {
            Parsed::Incomplete
        } else {
            match parse_conn_payload(b.subrange(4, 4 + n)) {
                Some(v) => Parsed::Frame { v, used: 4 + n },
                None => Parsed::Malformed,
            }
        }
    }
}

// ---------------------------------------------------------------------------
// Round trips
// ---------------------------------------------------------------------------

/// A `u32` written at the head of a longer sequence reads back unchanged.
pub proof fn lemma_dec_u32_prefix(n: u32, rest: Seq<u8>)
    ensures
        dec_u32(enc_u32(n) + rest) == n,
{
    lemma_u32_roundtrip(n);
    let s = enc_u32(n) + rest;
    assert(s[0] == enc_u32(n)[0]);
    assert(s[1] == enc_u32(n)[1]);
    assert(s[2] == enc_u32(n)[2]);
    assert(s[3] == enc_u32(n)[3]);
}

/// Serialized metadata parses back to exactly the metadata written.
pub proof fn lemma_meta_roundtrip(m: MetaView)
    requires
        meta_wf(m),
    ensures
        parse_meta(enc_meta(m)) == Some(m),
{
    let idlen = m.id.len() as int;
    let namelen = m.name.len() as int;
    let p = enc_meta(m);
    assert(p.len() == idlen + namelen + 15);
    lemma_u32_roundtrip(m.id.len() as u32);
    assert(p[0] == enc_u32(m.id.len() as u32)[0]);
    assert(p[1] == enc_u32(m.id.len() as u32)[1]);
    assert(p[2] == enc_u32(m.id.len() as u32)[2]);
    assert(p[3] == enc_u32(m.id.len() as u32)[3]);
    assert(dec_u32(p) == m.id.len() as u32);
    assert(p.subrange(4, 4 + idlen) =~= m.id);
    assert(p[4 + idlen] == dev_byte(m.device));
    assert(dev_of(dev_byte(m.device)) == Some(m.device));
    let o = 5 + idlen;
    lemma_u32_roundtrip(m.name.len() as u32);
    assert(p.subrange(o, o + 4) =~= enc_u32(m.name.len() as u32));
    assert(dec_u32_at(p, o) == m.name.len() as u32);
    assert(p.len() == o + 4 + namelen + 6);
    assert(p.subrange(o + 4, o + 4 + namelen) =~= m.name);
    lemma_u32_roundtrip(m.addr.ip);
    assert(p.subrange(o + 4 + namelen, o + 4 + namelen + 4) =~= enc_u32(m.addr.ip));
    assert(dec_u32_at(p, o + 4 + namelen) == m.addr.ip);
    lemma_u16_roundtrip(m.addr.port);
    assert(p.subrange(o + 4 + namelen + 4, o + 4 + namelen + 6) =~= enc_u16(m.addr.port));
    assert(dec_u16_at(p, o + 4 + namelen + 4) == m.addr.port);
    assert(parse_meta(p) == Some(
        MetaView {
            id: p.subrange(4, 4 + idlen),
            device: m.device,
            name: p.subrange(o + 4, o + 4 + namelen),
            addr: Addr { ip: m.addr.ip, port: m.addr.port },
        },
    ));
    assert(Addr { ip: m.addr.ip, port: m.addr.port } == m.addr);
}

/// A discovery payload parses back to exactly the event written.
pub proof fn lemma_disc_payload_roundtrip(d: DiscView)
    requires
        disc_wf(d),
    ensures
        parse_disc_payload(enc_disc_payload(d)) == Some(d),
{
    let p = enc_disc_payload(d);
    match d {
        DiscView::Request { dedup } => {
            assert(p.len() == 5);
            assert(p[0] == 0);
            assert(p.subrange(1, 5) =~= enc_u32(dedup));
            lemma_u32_roundtrip(dedup);
        },
        DiscView::Response { meta } => {
            assert(p[0] == 1);
            assert(p.subrange(1, p.len() as int) =~= enc_meta(meta));
            lemma_meta_roundtrip(meta);
        },
    }
}

/// Decoding a buffer that starts with an encoded discovery event yields
/// that event, spanning exactly its own bytes, whatever follows it.
pub proof fn lemma_disc_roundtrip(d: DiscView, rest: Seq<u8>)
    requires
        disc_wf(d),
    ensures
        parse_disc_frame(enc_disc_frame(d) + rest) == (Parsed::Frame {
            v: d,
            used: enc_disc_frame(d).len() as int,
        }),
{
    let payload = enc_disc_payload(d);
    let n = payload.len() as int;
    let b = enc_disc_frame(d) + rest;
    assert(b =~= enc_u32(payload.len() as u32) + (payload + rest));
    lemma_dec_u32_prefix(payload.len() as u32, payload + rest);
    assert(dec_u32(b) == payload.len() as u32);
    assert(b.len() == 4 + n + rest.len());
    assert(b.subrange(4, 4 + n) =~= payload);
    lemma_disc_payload_roundtrip(d);
}

/// A connection payload parses back to exactly the message written.
pub proof fn lemma_conn_payload_roundtrip(c: ConnView)
    requires
        conn_wf(c),
    ensures
        parse_conn_payload(enc_conn_payload(c)) == Some(c),
{
    let p = enc_conn_payload(c);
    match c {
        ConnView::Request { id, tag } => {
            let idlen = id.len() as int;
            let taglen = tag.len() as int;
            assert(p.len() == 9 + idlen + taglen);
            assert(p[0] == 0);
            lemma_u32_roundtrip(id.len() as u32);
            assert(p.subrange(1, 5) =~= enc_u32(id.len() as u32));
            assert(dec_u32_at(p, 1) == id.len() as u32);
            assert(p.subrange(5, 5 + idlen) =~= id);
            lemma_u32_roundtrip(tag.len() as u32);
            assert(p.subrange(5 + idlen, 9 + idlen) =~= enc_u32(tag.len() as u32));
            assert(dec_u32_at(p, 5 + idlen) == tag.len() as u32);
            assert(p.subrange(9 + idlen, 9 + idlen + taglen) =~= tag);
        },
        ConnView::Response { tag } => {
            let taglen = tag.len() as int;
            assert(p.len() == 5 + taglen);
            assert(p[0] == 1);
            lemma_u32_roundtrip(tag.len() as u32);
            assert(p.subrange(1, 5) =~= enc_u32(tag.len() as u32));
            assert(dec_u32_at(p, 1) == tag.len() as u32);
            assert(p.subrange(5, 5 + taglen) =~= tag);
        },
        ConnView::CompleteRequest => {
            assert(p.len() == 1 && p[0] == 2);
        },
        ConnView::CompleteResponse => {
            assert(p.len() == 1 && p[0] == 3);
        },
        ConnView::Failure { code } => {
            assert(p.len() == 5);
            assert(p[0] == 255);
            lemma_u32_roundtrip(code);
            assert(p.subrange(1, 5) =~= enc_u32(code));
            assert(dec_u32_at(p, 1) == code);
        },
    }
}

/// Decoding a buffer that starts with an encoded connection message yields
/// that message, spanning exactly its own bytes, whatever follows it.
pub proof fn lemma_conn_roundtrip(c: ConnView, rest: Seq<u8>)
    requires
        conn_wf(c),
    ensures
        parse_conn_frame(enc_conn_frame(c) + rest) == (Parsed::Frame {
            v: c,
            used: enc_conn_frame(c).len() as int,
        }),
{
    let payload = enc_conn_payload(c);
    let n = payload.len() as int;
    let b = enc_conn_frame(c) + rest;
    assert(b =~= enc_u32(payload.len() as u32) + (payload + rest));
    lemma_dec_u32_prefix(payload.len() as u32, payload + rest);
    assert(dec_u32(b) == payload.len() as u32);
    assert(b.len() == 4 + n + rest.len());
    assert(b.subrange(4, 4 + n) =~= payload);
    lemma_conn_payload_roundtrip(c);
}

// ---------------------------------------------------------------------------
// Exec decoders
// ---------------------------------------------------------------------------

/// What a decoder found at the front of a buffer: an incomplete frame
/// (wait for more bytes), a malformed one (fatal), or a value together
/// with the number of bytes it spanned.
pub enum Decoded<T> {
    Incomplete,
    Malformed,
    Frame(T, usize),
}

/// Decodes serialized peer metadata spanning exactly all of `p`.
pub fn decode_meta(p: &Vec<u8>) -> (r: Option<PeerMetadata>)
    ensures
        r matches Some(m) ==> parse_meta(p@) == Some(m@),
        r is None ==> parse_meta(p@) is None,
{
    let plen: usize = p.len();
    if plen < 4 {
        return None;
    }
    let idlen32 = read_u32(p, 0);
    proof {
        assert(dec_u32(p@.subrange(0, 4)) == dec_u32(p@)) by {
            assert(p@.subrange(0, 4)[0] == p@[0]);
            assert(p@.subrange(0, 4)[1] == p@[1]);
            assert(p@.subrange(0, 4)[2] == p@[2]);
            assert(p@.subrange(0, 4)[3] == p@[3]);
        }
    }
    let idlen = idlen32 as usize;
    if plen - 4 < idlen {
        return None;
    }
    let off_dev = 4 + idlen;
    if plen - off_dev < 1 {
        return None;
    }
    let device = match byte_to_device(p[off_dev]) {
        Some(d) => d,
        None => {
            return None;
        },
    };
    let o = off_dev + 1;
    if plen - o < 4 {
        return None;
    }
    let namelen32 = read_u32(p, o);
    let namelen = namelen32 as usize;
    let rem = plen - o - 4;
    if rem < namelen {
        return None;
    }
    if rem - namelen != 6 {
        return None;
    }
    let o2 = o + 4 + namelen;
    let id = read_bytes(p, 4, idlen);
    let name = read_bytes(p, o + 4, namelen);
    let ip = read_u32(p, o2);
    let port = read_u16(p, o2 + 4);
    let meta = PeerMetadata { id: PeerId::new(id), device, name, addr: Addr { ip, port } };
    proof {
        assert(parse_meta(p@) == Some(meta@));
    }
    Some(meta)
}

/// Decodes one discovery frame off the front of `buf`.
pub fn decode_discovery(buf: &Vec<u8>) -> (r: Decoded<DiscoveryEvent>)
    ensures
        (r is Incomplete) == (parse_disc_frame(buf@) is Incomplete),
        (r is Malformed) == (parse_disc_frame(buf@) is Malformed),
        r matches Decoded::Frame(v, used) ==> parse_disc_frame(buf@) == (Parsed::Frame {
            v: v@,
            used: used as int,
        }),
{
    let blen: usize = buf.len();
    if blen < 4 {
        return Decoded::Incomplete;
    }
    let n32 = read_u32(buf, 0);
    proof {
        assert(dec_u32(buf@.subrange(0, 4)) == dec_u32(buf@)) by {
            assert(buf@.subrange(0, 4)[0] == buf@[0]);
            assert(buf@.subrange(0, 4)[1] == buf@[1]);
            assert(buf@.subrange(0, 4)[2] == buf@[2]);
            assert(buf@.subrange(0, 4)[3] == buf@[3]);
        }
    }
    let n = n32 as usize;
    if blen - 4 < n {
        return Decoded::Incomplete;
    }
    let payload = read_bytes(buf, 4, n);
    let used = 4 + n;
    if payload.len() < 1 {
        return Decoded::Malformed;
    }
    let disc = payload[0];
    if disc == 0 {
        if payload.len() != 5 {
            return Decoded::Malformed;
        }
        let dedup = read_u32(&payload, 1);
        proof {
            assert(parse_disc_payload(payload@) == Some(
                DiscView::Request { dedup: dec_u32_at(payload@, 1) },
            ));
        }
        Decoded::Frame(DiscoveryEvent::PresenceRequest(dedup), used)
    } else if disc == 1 {
        let mp = read_bytes(&payload, 1, payload.len() - 1);
        proof {
            assert(mp@ =~= payload@.subrange(1, payload@.len() as int));
        }
        match decode_meta(&mp) {
            Some(meta) => {
                proof {
                    assert(parse_disc_payload(payload@) == Some(DiscView::Response { meta: meta@ }));
                }
                Decoded::Frame(DiscoveryEvent::PresenceResponse(meta), used)
            },
            None => {
                proof {
                    assert(parse_disc_payload(payload@) is None);
                }
                Decoded::Malformed
            },
        }
    } else {
        Decoded::Malformed
    }
}

/// Decodes one connection frame off the front of `buf`.
pub fn decode_connection(buf: &Vec<u8>) -> (r: Decoded<Connection>)
    ensures
        (r is Incomplete) == (parse_conn_frame(buf@) is Incomplete),
        (r is Malformed) == (parse_conn_frame(buf@) is Malformed),
        r matches Decoded::Frame(v, used) ==> parse_conn_frame(buf@) == (Parsed::Frame {
            v: v@,
            used: used as int,
        }),
{
    let blen: usize = buf.len();
    if blen < 4 {
        return Decoded::Incomplete;
    }
    let n32 = read_u32(buf, 0);
    proof {
        assert(dec_u32(buf@.subrange(0, 4)) == dec_u32(buf@)) by {
            assert(buf@.subrange(0, 4)[0] == buf@[0]);
            assert(buf@.subrange(0, 4)[1] == buf@[1]);
            assert(buf@.subrange(0, 4)[2] == buf@[2]);
            assert(buf@.subrange(0, 4)[3] == buf@[3]);
        }
    }
    let n = n32 as usize;
    if blen - 4 < n {
        return Decoded::Incomplete;
    }
    let p = read_bytes(buf, 4, n);
    let used = 4 + n;
    let plen: usize = p.len();
    if plen < 1 {
        return Decoded::Malformed;
    }
    let disc = p[0];
    if disc == 0 {
        if plen < 5 {
            return Decoded::Malformed;
        }
        let idlen32 = read_u32(&p, 1);
        let idlen = idlen32 as usize;
        if plen < 9 || plen - 9 < idlen {
            return Decoded::Malformed;
        }
        let taglen32 = read_u32(&p, 5 + idlen);
        let taglen = taglen32 as usize;
        if plen - 9 - idlen != taglen {
            return Decoded::Malformed;
        }
        let id = read_bytes(&p, 5, idlen);
        let tag = read_bytes(&p, 9 + idlen, taglen);
        let c = Connection::Request { id: PeerId::new(id), tag };
        proof {
            assert(parse_conn_payload(p@) == Some(c@));
        }
        Decoded::Frame(c, used)
    } else if disc == 1 {
        if plen < 5 {
            return Decoded::Malformed;
        }
        let taglen32 = read_u32(&p, 1);
        let taglen = taglen32 as usize;
        if plen - 5 != taglen {
            return Decoded::Malformed;
        }
        let tag = read_bytes(&p, 5, taglen);
        let c = Connection::Response(tag);
        proof {
            assert(parse_conn_payload(p@) == Some(c@));
        }
        Decoded::Frame(c, used)
    } else if disc == 2 {
        if plen != 1 {
            return Decoded::Malformed;
        }
        Decoded::Frame(Connection::CompleteRequest, used)
    } else if disc == 3 {
        if plen != 1 {
            return Decoded::Malformed;
        }
        Decoded::Frame(Connection::CompleteResponse, used)
    } else if disc == 255 {
        if plen != 5 {
            return Decoded::Malformed;
        }
        let code = read_u32(&p, 1);
        Decoded::Frame(Connection::Failure(code), used)
    } else {
        Decoded::Malformed
    }
}

// ---------------------------------------------------------------------------
// Session codec
// ---------------------------------------------------------------------------

/// The `u64` spelled by the first eight bytes of `s`, big-endian.
pub open spec fn dec_u64(s: Seq<u8>) -> u64
    recommends
        s.len() >= 8,
{
    (s[0] as int * 0x100000000000000 + s[1] as int * 0x1000000000000 + s[2] as int * 0x10000000000
        + s[3] as int * 0x100000000 + s[4] as int * 0x1000000 + s[5] as int * 0x10000 + s[6] as int
        * 0x100 + s[7] as int) as u64
}

/// Reading back the eight bytes of `n` yields `n`.
pub proof fn lemma_u64_roundtrip(n: u64)
    ensures
        dec_u64(crate::pairing::enc_u64_be(n)) == n,
{
    assert(n / 0x100000000000000 < 0x100) by (bit_vector);
    assert((n / 0x100000000000000) * 0x100000000000000 + (n / 0x1000000000000) % 0x100
        * 0x1000000000000 + (n / 0x10000000000) % 0x100 * 0x10000000000 + (n / 0x100000000) % 0x100
        * 0x100000000 + (n / 0x1000000) % 0x100 * 0x1000000 + (n / 0x10000) % 0x100 * 0x10000 + (n
        / 0x100) % 0x100 * 0x100 + n % 0x100 == n) by (bit_vector);
}

/// Reads the big-endian `u64` at `off`.
pub fn read_u64(buf: &Vec<u8>, off: usize) -> (r: u64)
    requires
        off + 8 <= buf@.len(),
    ensures
        r == dec_u64(buf@.subrange(off as int, off as int + 8)),
{
    let blen: usize = buf.len();
    let r = (buf[off] as u64) * 0x100000000000000 + (buf[off + 1] as u64) * 0x1000000000000 + (
    buf[off + 2] as u64) * 0x10000000000 + (buf[off + 3] as u64) * 0x100000000 + (buf[off
        + 4] as u64) * 0x1000000 + (buf[off + 5] as u64) * 0x10000 + (buf[off + 6] as u64) * 0x100
        + (buf[off + 7] as u64);
    proof {
        let s = buf@.subrange(off as int, off as int + 8);
        assert(s[0] == buf@[off as int] && s[1] == buf@[off as int + 1] && s[2] == buf@[off as int
            + 2] && s[3] == buf@[off as int + 3] && s[4] == buf@[off as int + 4] && s[5] == buf@[
        off as int + 5] && s[6] == buf@[off as int + 6] && s[7] == buf@[off as int + 7]);
    }
    r
}

/// The discriminant byte of a control response.
pub open spec fn enc_status(r: CtlResponse) -> Seq<u8> {
    match r {
        CtlResponse::Success => seq![0u8],
        CtlResponse::Cancel => seq![1u8],
        CtlResponse::Waiting => seq![2u8],
        CtlResponse::Error(code) => seq![3u8] + enc_u32(code),
    }
}

/// The serialized control half of a session frame.
pub open spec fn enc_ctl(c: CtlView) -> Seq<u8> {
    match c {
        CtlView::Request { req } => match req {
            CtlReqView::LaunchUri { uri } => seq![0u8] + enc_u32(uri.len() as u32) + uri,
        },
        CtlView::Response { resp } => seq![1u8] + enc_status(resp),
    }
}

/// The payload of a session frame: the session id, then the control body.
pub open spec fn enc_sess_payload(s: SessView) -> Seq<u8> {
    crate::pairing::enc_u64_be(s.id) + enc_ctl(s.ctl)
}

/// A session whose encoded payload length fits the frame header.
pub open spec fn sess_wf(s: SessView) -> bool {
    match s.ctl {
        CtlView::Request { req } => match req {
            CtlReqView::LaunchUri { uri } => uri.len() + 13 < 0x100000000,
        },
        CtlView::Response { .. } => true,
    }
}

/// The full wire form of a session frame.
pub open spec fn enc_sess_frame(s: SessView) -> Seq<u8> {
    enc_frame(enc_sess_payload(s))
}

/// Reads a control response spanning exactly all of `p`.
pub open spec fn parse_status(p: Seq<u8>) -> Option<CtlResponse> {
    if p.len() < 1 {
        None
    } else if p[0] == 0 && p.len() == 1 {
        Some(CtlResponse::Success)
    } else if p[0] == 1 && p.len() == 1 {
        Some(CtlResponse::Cancel)
    } else if p[0] == 2 && p.len() == 1 {
        Some(CtlResponse::Waiting)
    } else if p[0] == 3 && p.len() == 5 {
        Some(CtlResponse::Error(dec_u32_at(p, 1)))
    } else {
        None
    }
}

/// Reads a control body spanning exactly all of `p`.
pub open spec fn parse_ctl(p: Seq<u8>) -> Option<CtlView> {
    if p.len() < 1 {
        None
    } else if p[0] == 0 {
        if p.len() < 5 {
            None
        } else {
            let urilen = dec_u32_at(p, 1) as int;
            if p.len() != 5 + urilen {
                None
            } else {
                Some(
                    CtlView::Request {
                        req: CtlReqView::LaunchUri { uri: p.subrange(5, 5 + urilen) },
                    },
                )
            }
        }
    } else if p[0] == 1 {
        match parse_status(p.subrange(1, p.len() as int)) {
            Some(resp) => Some(CtlView::Response { resp }),
            None => None,
        }
    } else {
        None
    }
}

/// Reads a session payload spanning exactly all of `p`.
pub open spec fn parse_sess_payload(p: Seq<u8>) -> Option<SessView> {
    if p.len() < 8 {
        None
    } else {
        let id = dec_u64(p);
        match parse_ctl(p.subrange(8, p.len() as int)) {
            Some(ctl) => Some(SessView { id, ctl }),
            None => None,
        }
    }
}

/// Reads one session frame off the front of `b`.
pub open spec fn parse_sess_frame(b: Seq<u8>) -> Parsed<SessView> {
    if b.len() < 4 {
        Parsed::Incomplete
    } else {
        let n = dec_u32(b) as int;
        if b.len() - 4 < n {
            Parsed::Incomplete
        } else {
            match parse_sess_payload(b.subrange(4, 4 + n)) {
                Some(v) => Parsed::Frame { v, used: 4 + n },
                None => Parsed::Malformed,
            }
        }
    }
}

/// Encodes a session as one wire frame.
pub fn encode_session(s: &Session) -> (r: Vec<u8>)
    requires
        sess_wf(s@),
    ensures
        r@ == enc_sess_frame(s@),
{
    let mut payload = crate::pairing::u64_to_be_bytes(s.id);
    match &s.ctl {
        Ctl::Request(CtlRequest::LaunchUri(uri)) => {
            payload.push(0);
            push_u32(&mut payload, uri.len() as u32);
            push_bytes(&mut payload, uri.as_slice());
        },
        Ctl::Response(resp) => {
            payload.push(1);
            match resp {
                CtlResponse::Success => payload.push(0),
                CtlResponse::Cancel => payload.push(1),
                CtlResponse::Waiting => payload.push(2),
                CtlResponse::Error(code) => {
                    payload.push(3);
                    push_u32(&mut payload, *code);
                },
            }
        },
    }
    proof {
        assert(payload@ =~= enc_sess_payload(s@));
    }
    let mut out: Vec<u8> = Vec::new();
    push_u32(&mut out, payload.len() as u32);
    push_bytes(&mut out, payload.as_slice());
    out
}

/// Decodes one session frame off the front of `buf`.
pub fn decode_session(buf: &Vec<u8>) -> (r: Decoded<Session>)
    ensures
        (r is Incomplete) == (parse_sess_frame(buf@) is Incomplete),
        (r is Malformed) == (parse_sess_frame(buf@) is Malformed),
        r matches Decoded::Frame(v, used) ==> parse_sess_frame(buf@) == (Parsed::Frame {
            v: v@,
            used: used as int,
        }),
{
    let blen: usize = buf.len();
    if blen < 4 {
        return Decoded::Incomplete;
    }
    let n32 = read_u32(buf, 0);
    proof {
        assert(dec_u32(buf@.subrange(0, 4)) == dec_u32(buf@)) by {
            assert(buf@.subrange(0, 4)[0] == buf@[0]);
            assert(buf@.subrange(0, 4)[1] == buf@[1]);
            assert(buf@.subrange(0, 4)[2] == buf@[2]);
            assert(buf@.subrange(0, 4)[3] == buf@[3]);
        }
    }
    let n = n32 as usize;
    if blen - 4 < n {
        return Decoded::Incomplete;
    }
    let p = read_bytes(buf, 4, n);
    let used = 4 + n;
    let plen: usize = p.len();
    if plen < 8 {
        return Decoded::Malformed;
    }
    let id = read_u64(&p, 0);
    proof {
        assert(dec_u64(p@.subrange(0, 8)) == dec_u64(p@)) by {
            assert(forall|k: int| 0 <= k < 8 ==> p@.subrange(0, 8)[k] == p@[k]);
        }
    }
    let ghost cp = p@.subrange(8, p@.len() as int);
    if plen - 8 < 1 {
        return Decoded::Malformed;
    }
    let kind = p[8];
    proof {
        assert(cp[0] == p@[8]);
        assert(cp.len() == plen - 8);
    }
    if kind == 0 {
        if plen - 8 < 5 {
            return Decoded::Malformed;
        }
        let urilen32 = read_u32(&p, 9);
        proof {
            assert(cp.subrange(1, 5) =~= p@.subrange(9, 13));
        }
        let urilen = urilen32 as usize;
        if plen - 13 != urilen || plen < 13 {
            return Decoded::Malformed;
        }
        let uri = read_bytes(&p, 13, urilen);
        proof {
            assert(uri@ =~= cp.subrange(5, 5 + urilen as int));
            assert(parse_ctl(cp) == Some(
                CtlView::Request { req: CtlReqView::LaunchUri { uri: uri@ } },
            ));
        }
        Decoded::Frame(Session { id, ctl: Ctl::Request(CtlRequest::LaunchUri(uri)) }, used)
    } else if kind == 1 {
        if plen - 9 < 1 {
            return Decoded::Malformed;
        }
        let ghost sp = cp.subrange(1, cp.len() as int);
        let sb = p[9];
        proof {
            assert(sp[0] == p@[9]);
            assert(sp.len() == plen - 9);
        }
        let resp = if sb == 0 && plen == 10 {
            CtlResponse::Success
        } else if sb == 1 && plen == 10 {
            CtlResponse::Cancel
        } else if sb == 2 && plen == 10 {
            CtlResponse::Waiting
        } else if sb == 3 && plen == 14 {
            let code = read_u32(&p, 10);
            proof {
                assert(sp.subrange(1, 5) =~= p@.subrange(10, 14));
            }
            CtlResponse::Error(code)
        } else {
            proof {
                assert(parse_status(sp) is None);
            }
            return Decoded::Malformed;
        };
        proof {
            assert(parse_status(sp) == Some(resp));
            assert(parse_ctl(cp) == Some(CtlView::Response { resp }));
        }
        Decoded::Frame(Session { id, ctl: Ctl::Response(resp) }, used)
    } else {
        proof {
            assert(parse_ctl(cp) is None);
        }
        Decoded::Malformed
    }
}

/// Decoding a buffer that starts with an encoded session yields that
/// session, spanning exactly its own bytes, whatever follows it.
pub proof fn lemma_sess_roundtrip(s: SessView, rest: Seq<u8>)
    requires
        sess_wf(s),
    ensures
        parse_sess_frame(enc_sess_frame(s) + rest) == (Parsed::Frame {
            v: s,
            used: enc_sess_frame(s).len() as int,
        }),
{
    let payload = enc_sess_payload(s);
    let n = payload.len() as int;
    let b = enc_sess_frame(s) + rest;
    assert(b =~= enc_u32(payload.len() as u32) + (payload + rest));
    lemma_dec_u32_prefix(payload.len() as u32, payload + rest);
    assert(dec_u32(b) == payload.len() as u32);
    assert(b.len() == 4 + n + rest.len());
    assert(b.subrange(4, 4 + n) =~= payload);
    // the payload parses back to s
    lemma_u64_roundtrip(s.id);
    assert(forall|k: int|
        0 <= k < 8 ==> payload[k] == crate::pairing::enc_u64_be(s.id)[k]);
    assert(dec_u64(payload) == s.id);
    let cp = payload.subrange(8, payload.len() as int);
    assert(cp =~= enc_ctl(s.ctl));
    match s.ctl {
        CtlView::Request { req } => match req {
            CtlReqView::LaunchUri { uri } => {
                assert(cp.len() == 5 + uri.len());
                assert(cp[0] == 0);
                lemma_u32_roundtrip(uri.len() as u32);
                assert(cp.subrange(1, 5) =~= enc_u32(uri.len() as u32));
                assert(dec_u32_at(cp, 1) == uri.len() as u32);
                assert(cp.subrange(5, 5 + uri.len() as int) =~= uri);
            },
        },
        CtlView::Response { resp } => {
            assert(cp[0] == 1);
            let sp = cp.subrange(1, cp.len() as int);
            assert(sp =~= enc_status(resp));
            match resp {
                CtlResponse::Success => {
                    assert(sp.len() == 1 && sp[0] == 0);
                },
                CtlResponse::Cancel => {
                    assert(sp.len() == 1 && sp[0] == 1);
                },
                CtlResponse::Waiting => {
                    assert(sp.len() == 1 && sp[0] == 2);
                },
                CtlResponse::Error(code) => {
                    assert(sp.len() == 5 && sp[0] == 3);
                    lemma_u32_roundtrip(code);
                    assert(sp.subrange(1, 5) =~= enc_u32(code));
                    assert(dec_u32_at(sp, 1) == code);
                },
            }
        },
    }
}


} // verus!
