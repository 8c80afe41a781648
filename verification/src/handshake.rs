//! The handshake that establishes a connection's encryption context.
//!
//! Each side draws a random salt and sends it in the clear; the salts become
//! the two directions' nonce prefixes, so the counters of both directions
//! start from distinct states. Then each side proves it holds the shared key
//! by sealing both salts — its own first — under its write codec as frame
//! number zero, and each verifies the peer's sealed confirmation. The key
//! itself never crosses the wire. A side whose verification fails drops the
//! connection before any application frame. Data frames start at number one.
//!
//! With no key configured the handshake degrades to an explicit
//! unencrypted passthrough: both halves are built without a codec, and the
//! transport reports it — never a silent fallback.

use crate::codec::{
    open_of, secure_random, spec_nonce_of, Codec, CODEC_KEY_LEN, TAG_LEN,
};
use crate::transport::{TransportReadHalf, TransportWriteHalf};
use vstd::prelude::*;

verus! {

/// Bytes of the salt each side contributes; it becomes one direction's
/// nonce prefix.
pub const SALT_LEN: usize = 16;

/// The handshake could not establish a protected connection; the socket is
/// dropped without processing any frame.
#[derive(Clone, Copy, Debug, PartialEq, Eq, Structural)]
pub enum HandshakeError {
    /// The peer's salt had the wrong length.
    BadSalt,
    /// The peer's key confirmation did not verify: it holds another key, or
    /// the exchange was tampered with.
    BadConfirmation,
}

/// A fresh random salt for one direction. Relies on the entropy source
/// behind `secure_random`; nothing is assumed of the bytes.
pub fn generate_salt() -> (r: Vec<u8>)
    ensures
        r@.len() == SALT_LEN,
{
    secure_random(SALT_LEN)
}

/// A fresh random secret key, drawn at bind time when a server starts.
pub fn generate_key() -> (r: Vec<u8>)
    ensures
        r@.len() == CODEC_KEY_LEN,
{
    secure_random(CODEC_KEY_LEN)
}

/// What a side seals to prove it holds the key: its own salt, then the
/// peer's.
pub open spec fn spec_confirmation_payload(my_salt: Seq<u8>, peer_salt: Seq<u8>) -> Seq<u8> {
    my_salt + peer_salt
}

/// Builds this side's key confirmation: both salts sealed under the write
/// codec as frame number zero.
pub fn build_confirmation(codec: &Codec, my_salt: &Vec<u8>, peer_salt: &Vec<u8>) -> (r: Vec<u8>)
    requires
        codec.wf(),
        my_salt@.len() == SALT_LEN,
        peer_salt@.len() == SALT_LEN,
    ensures
        r@.len() == 2 * SALT_LEN + TAG_LEN,
        open_of(codec.key@, spec_nonce_of(codec.nonce_prefix@, 0), r@) == Some(
            spec_confirmation_payload(my_salt@, peer_salt@),
        ),
{
    let mut payload: Vec<u8> = Vec::new();
    payload.extend_from_slice(my_salt.as_slice());
    payload.extend_from_slice(peer_salt.as_slice());
    proof {
        assert(payload@ =~= spec_confirmation_payload(my_salt@, peer_salt@));
    }
    match codec.encrypt(&payload, 0) {
        Ok(ct) => ct,
        Err(_) => {
            proof {
                assert(false);
            }
            Vec::new()
        },
    }
}

/// Verifies the peer's key confirmation against this side's read codec:
/// true exactly when the ciphertext opens as frame number zero to the two
/// salts, the peer's first. False means the peer holds another key or the
/// exchange was tampered with, and no encryption state of this connection
/// may be used.
pub fn check_confirmation(codec: &Codec, peer_salt: &Vec<u8>, my_salt: &Vec<u8>, ct: &Vec<u8>) -> (r:
    bool)
    requires
        codec.wf(),
        my_salt@.len() == SALT_LEN,
        peer_salt@.len() == SALT_LEN,
    ensures
        r == (ct@.len() >= TAG_LEN && open_of(codec.key@, spec_nonce_of(codec.nonce_prefix@, 0), ct@)
            == Some(spec_confirmation_payload(peer_salt@, my_salt@))),
{
    let mut expected: Vec<u8> = Vec::new();
    expected.extend_from_slice(peer_salt.as_slice());
    expected.extend_from_slice(my_salt.as_slice());
    proof {
        assert(expected@ =~= spec_confirmation_payload(peer_salt@, my_salt@));
    }
    match codec.decrypt(ct, 0) {
        Ok(pt) => {
            let ok = crate::wire::vecs_equal(&pt, &expected);
            proof {
                if pt@ == expected@ {
                    assert(open_of(codec.key@, spec_nonce_of(codec.nonce_prefix@, 0), ct@) == Some(
                        expected@,
                    ));
                }
            }
            ok
        },
        Err(_) => false,
    }
}

/// Builds the two halves of an established transport from the shared key
/// and the two salts. With a key, the write direction seals under this
/// side's salt and the read direction opens under the peer's; without one,
/// both halves are explicit passthrough. Either way the data frames of both
/// directions start at number one — number zero belongs to the
/// confirmations.
pub fn establish_transport(key: Option<Vec<u8>>, my_salt: Vec<u8>, peer_salt: Vec<u8>) -> (r: (
    TransportWriteHalf,
    TransportReadHalf,
))
    requires
        key is Some ==> key->0@.len() == CODEC_KEY_LEN,
        my_salt@.len() == SALT_LEN,
        peer_salt@.len() == SALT_LEN,
    ensures
        r.0.wf() && r.1.wf(),
        r.0.seq == 1 && r.1.seq == 1,
        key is Some ==> {
            &&& r.0.codec is Some && r.1.codec is Some
            &&& r.0.codec->0.key@ == key->0@ && r.1.codec->0.key@ == key->0@
            &&& r.0.codec->0.nonce_prefix@ == my_salt@
            &&& r.1.codec->0.nonce_prefix@ == peer_salt@
        },
        key is None ==> r.0.codec is None && r.1.codec is None,
{
    match key {
        Some(k) => {
            let mut k2: Vec<u8> = Vec::new();
            k2.extend_from_slice(k.as_slice());
            let write_codec = Codec::new(k, my_salt);
            let read_codec = Codec::new(k2, peer_salt);
            (
                TransportWriteHalf { codec: Some(write_codec), seq: 1 },
                TransportReadHalf { codec: Some(read_codec), seq: 1 },
            )
        },
        None => (
            TransportWriteHalf { codec: None, seq: 1 },
            TransportReadHalf { codec: None, seq: 1 },
        ),
    }
}

/// The handshake law, success side: when both sides hold the same key, each
/// side's confirmation verifies at the other — building under one salt pair
/// and checking under the same pair always passes.
pub fn confirmation_round_trip(key: &Vec<u8>, salt_a: &Vec<u8>, salt_b: &Vec<u8>) -> (r: bool)
    requires
        key@.len() == CODEC_KEY_LEN,
        salt_a@.len() == SALT_LEN,
        salt_b@.len() == SALT_LEN,
    ensures
        r,
{
    let mut ka: Vec<u8> = Vec::new();
    ka.extend_from_slice(key.as_slice());
    let mut sa: Vec<u8> = Vec::new();
    sa.extend_from_slice(salt_a.as_slice());
    let mut kb: Vec<u8> = Vec::new();
    kb.extend_from_slice(key.as_slice());
    let mut sa2: Vec<u8> = Vec::new();
    sa2.extend_from_slice(salt_a.as_slice());
    proof {
        assert(ka@ =~= key@);
        assert(kb@ =~= key@);
        assert(sa@ =~= salt_a@);
        assert(sa2@ =~= salt_a@);
    }
    let a_write = Codec::new(ka, sa);
    let b_read = Codec::new(kb, sa2);
    let ct = build_confirmation(&a_write, salt_a, salt_b);
    check_confirmation(&b_read, salt_a, salt_b, &ct)
}

} // verus!
