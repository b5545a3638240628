//! HMAC-SHA256 signing and verification.
//!
//! The handshake authenticates peers by exchanging HMAC tags whose key is
//! the ASCII form of a rotating one-time password (see `pairing`). The MAC
//! itself is computed by an outside implementation; its output is named by
//! the uninterpreted function [`hmac_sha256`], and everything the library
//! proves about tags goes through that name.

use vstd::prelude::*;

verus! {

/// The HMAC-SHA256 tag of `msg` under `key`: a pure function of its
/// arguments, computed by the outside MAC implementation.
pub uninterp spec fn hmac_sha256(key: Seq<u8>, msg: Seq<u8>) -> Seq<u8>;

/// A tag is valid for `key` and `msg` exactly when it equals the freshly
/// computed MAC of `msg` under `key`.
pub open spec fn tag_valid(key: Seq<u8>, msg: Seq<u8>, tag: Seq<u8>) -> bool {
    tag == hmac_sha256(key, msg)
}

/// Relies on `hmac::Hmac<sha2::Sha256>` (`Mac::new_from_slice`, `update`,
/// `finalize`): the returned bytes are the HMAC-SHA256 tag of `msg` under
/// `key`, 32 bytes long (SHA-256's output size), and a function of the two
/// arguments alone. `Hmac::new_from_slice` accepts keys of any length and
/// never fails.
#[verifier::external_body]
pub fn sign(key: &[u8], msg: &[u8]) -> (tag: Vec<u8>)
    ensures
        tag@ == hmac_sha256(key@, msg@),
        tag@.len() == 32,
{
    let mut mac = <hmac::Hmac<sha2::Sha256> as hmac::Mac>::new_from_slice(key)
        .expect("HMAC accepts keys of any length");
    hmac::Mac::update(&mut mac, msg);
    hmac::Mac::finalize(mac).into_bytes().to_vec()
}

/// Relies on `digest::Mac::verify_slice`: it returns `Ok` exactly when
/// `tag` has the MAC's output length and equals the computed tag, compared
/// in constant time.
#[verifier::external_body]
pub fn verify(key: &[u8], msg: &[u8], tag: &[u8]) -> (ok: bool)
    ensures
        ok == tag_valid(key@, msg@, tag@),
{
    let mut mac = <hmac::Hmac<sha2::Sha256> as hmac::Mac>::new_from_slice(key)
        .expect("HMAC accepts keys of any length");
    hmac::Mac::update(&mut mac, msg);
    hmac::Mac::verify_slice(mac, tag).is_ok()
}

/// A freshly signed tag always verifies, and no other tag does: under one
/// key, exactly one byte sequence is accepted for a given message.
pub proof fn lemma_sign_verify(key: Seq<u8>, msg: Seq<u8>, tag: Seq<u8>)
    ensures
        tag_valid(key, msg, hmac_sha256(key, msg)),
        tag != hmac_sha256(key, msg) ==> !tag_valid(key, msg, tag),
{
}

} // verus!
