//! Pairing credentials and the rotating one-time password derived from them.
//!
//! Two paired devices share a secret. For each 30-second window of wall-clock
//! time, [`PairingAuthenticator::generate`] derives a six-digit one-time
//! password from the secret and the window (the standard TOTP construction,
//! here over HMAC-SHA256): the ASCII bytes of that code are the key under
//! which handshake tags are signed, so the effective MAC key rotates every
//! window. The computation is deterministic in the secret and the window;
//! reading the clock is left to the caller at the process edge.

use vstd::prelude::*;
use crate::hmac;

verus! {

/// Length of a one-time-password window, in seconds.
pub const TOTP_STEP_SECS: u64 = 30;

/// The window that a wall-clock time (seconds since the Unix epoch) falls in.
pub open spec fn window_of(now_secs: u64) -> u64 {
    now_secs / TOTP_STEP_SECS
}

/// The eight-byte big-endian form of `n`, the counter format hashed by the
/// one-time-password construction.
pub open spec fn enc_u64_be(n: u64) -> Seq<u8> {
    seq![
        (n as int / 0x100000000000000) as u8,
        ((n as int / 0x1000000000000) % 0x100) as u8,
        ((n as int / 0x10000000000) % 0x100) as u8,
        ((n as int / 0x100000000) % 0x100) as u8,
        ((n as int / 0x1000000) % 0x100) as u8,
        ((n as int / 0x10000) % 0x100) as u8,
        ((n as int / 0x100) % 0x100) as u8,
        (n as int % 0x100) as u8,
    ]
}

/// The ASCII digit for `d`.
pub open spec fn ascii_digit(d: int) -> u8 {
    (0x30 + d) as u8
}

/// Six ASCII digits spelling `v` (zero-padded), for `0 <= v < 1000000`.
pub open spec fn dec6(v: int) -> Seq<u8> {
    seq![
        ascii_digit(v / 100000 % 10),
        ascii_digit(v / 10000 % 10),
        ascii_digit(v / 1000 % 10),
        ascii_digit(v / 100 % 10),
        ascii_digit(v / 10 % 10),
        ascii_digit(v % 10),
    ]
}

/// The six ASCII digits of the one-time password for `secret` in `window`:
/// dynamic truncation of `hmac_sha256(secret, window-as-counter)`, reduced
/// modulo one million.
pub open spec fn totp_digits(secret: Seq<u8>, window: u64) -> Seq<u8> {
    let h = hmac::hmac_sha256(secret, enc_u64_be(window));
    let off = h[h.len() - 1] as int % 16;
    let v = ((h[off] as int % 128) * 0x1000000 + h[off + 1] as int * 0x10000 + h[off + 2] as int
        * 0x100 + h[off + 3] as int) % 1000000;
    dec6(v)
}

/// The handshake's MAC key for `secret` in the window holding `now_secs`.
pub open spec fn totp_key(secret: Seq<u8>, now_secs: u64) -> Seq<u8> {
    totp_digits(secret, window_of(now_secs))
}

/// Writes the eight big-endian bytes of `n`.
pub fn u64_to_be_bytes(n: u64) -> (r: Vec<u8>)
    ensures
        r@ == enc_u64_be(n),
{
    let mut r: Vec<u8> = Vec::new();
    r.push((n / 0x100000000000000) as u8);
    r.push(((n / 0x1000000000000) % 0x100) as u8);
    r.push(((n / 0x10000000000) % 0x100) as u8);
    r.push(((n / 0x100000000) % 0x100) as u8);
    r.push(((n / 0x1000000) % 0x100) as u8);
    r.push(((n / 0x10000) % 0x100) as u8);
    r.push(((n / 0x100) % 0x100) as u8);
    r.push((n % 0x100) as u8);
    proof {
        assert(r@ =~= enc_u64_be(n));
    }
    r
}

/// Holds the secret agreed during pairing and derives the one-time password
/// for a given moment.
pub struct PairingAuthenticator {
    secret: Vec<u8>,
}

impl View for PairingAuthenticator {
    type V = Seq<u8>;

    closed spec fn view(&self) -> Seq<u8> {
        self.secret@
    }
}

impl PairingAuthenticator {
    pub fn new(secret: Vec<u8>) -> (r: Self)
        ensures
            r@ == secret@,
    {
        PairingAuthenticator { secret }
    }

    pub fn duplicate(&self) -> (r: Self)
        ensures
            r@ == self@,
    {
        PairingAuthenticator { secret: vstd::slice::slice_to_vec(self.secret.as_slice()) }
    }

    /// The one-time password for the window holding `now_secs` (seconds
    /// since the Unix epoch), as six ASCII digits.
    pub fn generate(&self, now_secs: u64) -> (code: Vec<u8>)
        ensures
            code@ == totp_key(self@, now_secs),
            code@.len() == 6,
    {
        let window = now_secs / TOTP_STEP_SECS;
        let counter = u64_to_be_bytes(window);
        let h = hmac::sign(self.secret.as_slice(), counter.as_slice());
        let off = (h[31] % 16) as usize;
        let v: u32 = ((h[off] % 128) as u32) * 0x1000000 + (h[off + 1] as u32) * 0x10000 + (h[off
            + 2] as u32) * 0x100 + (h[off + 3] as u32);
        let code_v = v % 1000000;
        let mut code: Vec<u8> = Vec::new();
        code.push(0x30 + (code_v / 100000 % 10) as u8);
        code.push(0x30 + (code_v / 10000 % 10) as u8);
        code.push(0x30 + (code_v / 1000 % 10) as u8);
        code.push(0x30 + (code_v / 100 % 10) as u8);
        code.push(0x30 + (code_v / 10 % 10) as u8);
        code.push(0x30 + (code_v % 10) as u8);
        proof {
            assert(code@ =~= totp_digits(self@, window_of(now_secs)));
        }
        code
    }
}

} // verus!
