//! Symmetric authenticated encryption of wire frames.
//!
//! Each direction of a connection owns a codec: the shared secret key plus a
//! sixteen-byte nonce prefix drawn during the handshake. A frame encrypted
//! as number `seq` uses the twenty-four-byte nonce `prefix + seq`, so no two
//! frames of one direction ever share a `(key, nonce)` pair as long as the
//! sequence counter never repeats — which the transport enforces.

use crate::wire::spec_u64_to_be;
use crate::wire::u64_to_be;
use vstd::prelude::*;

verus! {

/// Bytes of the secret key.
pub const CODEC_KEY_LEN: usize = 32;

/// Bytes of the nonce prefix each direction draws during the handshake.
pub const NONCE_PREFIX_LEN: usize = 16;

/// Bytes the authentication tag adds to a plaintext.
pub const TAG_LEN: usize = 16;

/// Largest plaintext a single frame may carry. Far below the cipher's own
/// limit, and small enough that ciphertext plus tag always fits the
/// four-byte frame length prefix.
pub const MAX_PLAINTEXT: usize = 0x00FF_FFFF;

/// Encryption refused the input.
#[derive(Clone, Copy, Debug, PartialEq, Eq, Structural)]
pub enum EncryptError {
    /// The plaintext exceeds the size a frame may carry.
    TooLarge,
}

/// Decryption failed; the connection is not trustworthy and must be dropped.
#[derive(Clone, Copy, Debug, PartialEq, Eq, Structural)]
pub enum DecryptError {
    /// Shorter than an authentication tag: no plaintext can be present.
    Truncated,
    /// The authentication tag did not verify: corrupted, tampered, sealed
    /// under another key, or sealed under another nonce.
    BadTag,
}

/// What XChaCha20-Poly1305 decryption yields on a key, nonce and ciphertext:
/// the sealed plaintext when the tag verifies, nothing otherwise. A pure
/// function of its arguments; the library learns about it only through the
/// two trusted wrappers below.
pub uninterp spec fn open_of(key: Seq<u8>, nonce: Seq<u8>, ct: Seq<u8>) -> Option<Seq<u8>>;

/// Relies on orion::hazardous::aead::xchacha20poly1305::seal, plus
/// SecretKey::try_from and Nonce::try_from to shape the arguments.
/// seal writes ciphertext and tag deterministically from key, nonce and
/// plaintext; its only error cases (oversized plaintext, wrong key or nonce
/// length, undersized output buffer) are excluded here, and orion's open
/// recovers exactly the sealed plaintext from its output.
#[verifier::external_body]
fn aead_seal(key: &Vec<u8>, nonce: &Vec<u8>, pt: &Vec<u8>, out_len: usize) -> (r: Vec<u8>)
    requires
        key@.len() == CODEC_KEY_LEN,
        nonce@.len() == 24,
        pt@.len() <= MAX_PLAINTEXT,
        out_len == pt@.len() + TAG_LEN,
    ensures
        r@.len() == out_len,
        open_of(key@, nonce@, r@) == Some(pt@),
{
    let sk = orion::hazardous::aead::xchacha20poly1305::SecretKey::try_from(
        key.as_slice(),
    ).unwrap();
    let n = orion::hazardous::aead::xchacha20poly1305::Nonce::try_from(
        nonce.as_slice(),
    ).unwrap();
    let mut out = vec![0u8; out_len];
    orion::hazardous::aead::xchacha20poly1305::XChaCha20Poly1305::seal(&sk, &n, pt.as_slice(), None, &mut out)
        .unwrap();
    out
}

/// Relies on orion::hazardous::aead::xchacha20poly1305::open, plus
/// SecretKey::try_from and Nonce::try_from to shape the arguments.
/// open is deterministic in key, nonce and ciphertext: it yields the sealed
/// plaintext when the tag verifies and an error otherwise, exactly the
/// function named `open_of`.
#[verifier::external_body]
fn aead_open(key: &Vec<u8>, nonce: &Vec<u8>, ct: &Vec<u8>, out_len: usize) -> (r: Result<
    Vec<u8>,
    DecryptError,
>)
    requires
        key@.len() == CODEC_KEY_LEN,
        nonce@.len() == 24,
        out_len + TAG_LEN == ct@.len(),
    ensures
        (r is Ok) == (open_of(key@, nonce@, ct@) is Some),
        r is Ok ==> r->Ok_0@ == open_of(key@, nonce@, ct@)->0 && r->Ok_0@.len() == out_len,
{
    let sk = orion::hazardous::aead::xchacha20poly1305::SecretKey::try_from(
        key.as_slice(),
    ).unwrap();
    let n = orion::hazardous::aead::xchacha20poly1305::Nonce::try_from(
        nonce.as_slice(),
    ).unwrap();
    let mut out = vec![0u8; out_len];
    match orion::hazardous::aead::xchacha20poly1305::XChaCha20Poly1305::open(&sk, &n, ct.as_slice(), None, &mut out) {
        Ok(()) => Ok(out),
        Err(_) => Err(DecryptError::BadTag),
    }
}

/// Relies on orion::util::secure_rand_bytes, which fills the whole buffer
/// from the operating system's entropy source. Nothing can be said of the
/// bytes themselves.
#[verifier::external_body]
pub(crate) fn secure_random(count: usize) -> (r: Vec<u8>)
    requires
        1 <= count,
    ensures
        r@.len() == count,
{
    let mut out = vec![0u8; count];
    orion::util::secure_rand_bytes(&mut out).unwrap();
    out
}

/// The nonce of frame `seq` in one direction: the direction's prefix, then
/// the sequence number big-endian.
pub open spec fn spec_nonce_of(prefix: Seq<u8>, seq: u64) -> Seq<u8> {
    prefix + spec_u64_to_be(seq)
}

/// One direction's encryption state: the shared key and this direction's
/// nonce prefix.
pub struct Codec {
    pub key: Vec<u8>,
    pub nonce_prefix: Vec<u8>,
}

impl Codec {
    pub open spec fn wf(&self) -> bool {
        self.key@.len() == CODEC_KEY_LEN && self.nonce_prefix@.len() == NONCE_PREFIX_LEN
    }

    pub fn new(key: Vec<u8>, nonce_prefix: Vec<u8>) -> (r: Codec)
        requires
            key@.len() == CODEC_KEY_LEN,
            nonce_prefix@.len() == NONCE_PREFIX_LEN,
        ensures
            r.wf(),
            r.key@ == key@,
            r.nonce_prefix@ == nonce_prefix@,
    {
        Codec { key, nonce_prefix }
    }

    fn nonce_for(&self, seq: u64) -> (r: Vec<u8>)
        requires
            self.wf(),
        ensures
            r@ =~= spec_nonce_of(self.nonce_prefix@, seq),
            r@.len() == 24,
    {
        let mut r: Vec<u8> = Vec::new();
        r.extend_from_slice(self.nonce_prefix.as_slice());
        let mut tail = u64_to_be(seq);
        r.append(&mut tail);
        r
    }

    /// Seals one frame under this direction's nonce for `seq`. Fails exactly
    /// when the frame is too large to carry; otherwise the ciphertext is the
    /// plaintext plus a tag, and decrypting it with the same sequence number
    /// yields the frame back.
    pub fn encrypt(&self, frame: &Vec<u8>, seq: u64) -> (r: Result<Vec<u8>, EncryptError>)
        requires
            self.wf(),
        ensures
            r is Ok <==> frame@.len() <= MAX_PLAINTEXT,
            r is Err <==> r == Err::<Vec<u8>, EncryptError>(EncryptError::TooLarge) && frame@.len()
                > MAX_PLAINTEXT,
            r is Ok ==> {
                &&& r->Ok_0@.len() == frame@.len() + TAG_LEN
                &&& open_of(self.key@, spec_nonce_of(self.nonce_prefix@, seq), r->Ok_0@) == Some(
                    frame@,
                )
            },
    {
        if frame.len() > MAX_PLAINTEXT {
            return Err(EncryptError::TooLarge);
        }
        let nonce = self.nonce_for(seq);
        Ok(aead_seal(&self.key, &nonce, frame, frame.len() + TAG_LEN))
    }

    /// Opens one ciphertext with the nonce for `seq`. Fails exactly when the
    /// ciphertext is shorter than a tag, or when the tag does not verify —
    /// corrupted bytes, another key, or another sequence number. Never
    /// returns corrupted plaintext.
    pub fn decrypt(&self, ct: &Vec<u8>, seq: u64) -> (r: Result<Vec<u8>, DecryptError>)
        requires
            self.wf(),
        ensures
            r is Ok <==> (ct@.len() >= TAG_LEN && open_of(
                self.key@,
                spec_nonce_of(self.nonce_prefix@, seq),
                ct@,
            ) is Some),
            r is Ok ==> r->Ok_0@ == open_of(
                self.key@,
                spec_nonce_of(self.nonce_prefix@, seq),
                ct@,
            )->0,
            ct@.len() < TAG_LEN ==> r == Err::<Vec<u8>, DecryptError>(DecryptError::Truncated),
    {
        if ct.len() < TAG_LEN {
            return Err(DecryptError::Truncated);
        }
        let nonce = self.nonce_for(seq);
        aead_open(&self.key, &nonce, ct, ct.len() - TAG_LEN)
    }

    /// The round trip law: sealing a frame and opening the result under the
    /// same key, prefix and sequence number gives the frame back, never a
    /// failure and never corrupted bytes.
    pub fn round_trip(&self, frame: &Vec<u8>, seq: u64) -> (r: Vec<u8>)
        requires
            self.wf(),
            frame@.len() <= MAX_PLAINTEXT,
        ensures
            r@ == frame@,
    {
        let ct = match self.encrypt(frame, seq) {
            Ok(ct) => ct,
            Err(_) => {
                proof {
                    assert(false);
                }
                Vec::new()
            },
        };
        match self.decrypt(&ct, seq) {
            Ok(pt) => pt,
            Err(_) => {
                proof {
                    assert(false);
                }
                Vec::new()
            },
        }
    }
}

} // verus!
