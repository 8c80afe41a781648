//! Typed, length-framed transport over an established connection.
//!
//! After the handshake a connection splits into a write half and a read
//! half. Each half owns its own direction's codec and a monotonically
//! increasing sequence counter, so the two run on independent tasks with no
//! shared state, and no two frames of one direction are ever sealed under
//! the same nonce. A half without a codec is an explicit unencrypted
//! passthrough — the degraded mode a server without a configured key runs
//! in, never a silent fallback.

use crate::codec::{
    open_of, spec_nonce_of, Codec, DecryptError, EncryptError, MAX_PLAINTEXT, TAG_LEN,
};
use crate::wire::{encode_frame, lemma_u64_be_injective, spec_frame, spec_u64_to_be};
use vstd::prelude::*;

verus! {

/// The sending half of one connection.
pub struct TransportWriteHalf {
    /// This direction's codec; absent in explicit passthrough mode.
    pub codec: Option<Codec>,
    /// Number of the next frame to send.
    pub seq: u64,
}

/// The receiving half of one connection.
pub struct TransportReadHalf {
    /// The peer direction's codec; absent in explicit passthrough mode.
    pub codec: Option<Codec>,
    /// Number of the next frame expected.
    pub seq: u64,
}

impl TransportWriteHalf {
    pub open spec fn wf(&self) -> bool {
        match self.codec {
            Some(c) => c.wf(),
            None => true,
        }
    }

    /// Whether frames of this half are encrypted; callers can always tell.
    pub fn is_encrypted(&self) -> (r: bool)
        ensures
            r == (self.codec is Some),
    {
        self.codec.is_some()
    }

    /// Seals and frames one message as the next frame on the wire. On
    /// success the whole wire frame comes back — length prefix, then the
    /// ciphertext (or, in passthrough mode, the message itself) — and the
    /// counter moves on, so the nonce is never reused. On failure nothing
    /// changes and nothing must be written: a partial send abandons the
    /// transport.
    pub fn prepare_send(&mut self, msg: &Vec<u8>) -> (r: Result<Vec<u8>, EncryptError>)
        requires
            old(self).wf(),
            old(self).seq < u64::MAX,
        ensures
            final (self).wf(),
            final (self).codec == old(self).codec,
            r is Ok <==> msg@.len() <= MAX_PLAINTEXT,
            r is Err ==> *final (self) == *old(self) && r == Err::<Vec<u8>, EncryptError>(
                EncryptError::TooLarge,
            ),
            r is Ok ==> final (self).seq == old(self).seq + 1,
            r is Ok ==> {
                let payload = r->Ok_0@.skip(4);
                &&& r->Ok_0@ =~= spec_frame(payload)
                &&& payload.len() <= 0xFFFF_FFFF
                &&& match old(self).codec {
                    Some(c) => payload.len() == msg@.len() + TAG_LEN && open_of(
                        c.key@,
                        spec_nonce_of(c.nonce_prefix@, old(self).seq),
                        payload,
                    ) == Some(msg@),
                    None => payload =~= msg@,
                }
            },
    {
        if msg.len() > MAX_PLAINTEXT {
            return Err(EncryptError::TooLarge);
        }
        let payload = match &self.codec {
            Some(c) => {
                match c.encrypt(msg, self.seq) {
                    Ok(ct) => ct,
                    Err(_) => {
                        proof {
                            assert(false);
                        }
                        Vec::new()
                    },
                }
            },
            None => {
                let mut copy: Vec<u8> = Vec::new();
                copy.extend_from_slice(msg.as_slice());
                copy
            },
        };
        let framed = encode_frame(&payload);
        self.seq = self.seq + 1;
        proof {
            assert(framed@.skip(4) =~= payload@);
        }
        Ok(framed)
    }
}

impl TransportReadHalf {
    pub open spec fn wf(&self) -> bool {
        match self.codec {
            Some(c) => c.wf(),
            None => true,
        }
    }

    /// Whether frames of this half are encrypted; callers can always tell.
    pub fn is_encrypted(&self) -> (r: bool)
        ensures
            r == (self.codec is Some),
    {
        self.codec.is_some()
    }

    /// Opens one received frame payload (the bytes after the length prefix)
    /// as the next expected frame. On success the plaintext comes back and
    /// the counter moves on. A failure is fatal to the connection — the same
    /// bytes are never retried — and leaves the counter where it was.
    pub fn accept_payload(&mut self, payload: &Vec<u8>) -> (r: Result<Vec<u8>, DecryptError>)
        requires
            old(self).wf(),
            old(self).seq < u64::MAX,
        ensures
            final (self).wf(),
            final (self).codec == old(self).codec,
            r is Ok <==> match old(self).codec {
                Some(c) => payload@.len() >= TAG_LEN && open_of(
                    c.key@,
                    spec_nonce_of(c.nonce_prefix@, old(self).seq),
                    payload@,
                ) is Some,
                None => true,
            },
            r is Err ==> *final (self) == *old(self),
            r is Ok ==> final (self).seq == old(self).seq + 1,
            r is Ok ==> r->Ok_0@ == match old(self).codec {
                Some(c) => open_of(
                    c.key@,
                    spec_nonce_of(c.nonce_prefix@, old(self).seq),
                    payload@,
                )->0,
                None => payload@,
            },
    {
        let plain = match &self.codec {
            Some(c) => {
                match c.decrypt(payload, self.seq) {
                    Ok(pt) => pt,
                    Err(e) => {
                        return Err(e);
                    },
                }
            },
            None => {
                let mut copy: Vec<u8> = Vec::new();
                copy.extend_from_slice(payload.as_slice());
                copy
            },
        };
        self.seq = self.seq + 1;
        Ok(plain)
    }
}

/// The load-bearing uniqueness fact: within one direction, distinct frame
/// numbers give distinct nonces, so no two frames are ever sealed under the
/// same `(key, nonce)` pair.
pub proof fn lemma_nonce_unique(prefix: Seq<u8>, s1: u64, s2: u64)
    requires
        spec_nonce_of(prefix, s1) == spec_nonce_of(prefix, s2),
    ensures
        s1 == s2,
{
    let n1 = spec_nonce_of(prefix, s1);
    let n2 = spec_nonce_of(prefix, s2);
    assert(n1.skip(prefix.len() as int) =~= spec_u64_to_be(s1));
    assert(n2.skip(prefix.len() as int) =~= spec_u64_to_be(s2));
    lemma_u64_be_injective(s1, s2);
}

} // verus!
