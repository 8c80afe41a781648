//! Big-endian integer coding and the length-prefixed wire frame.
//!
//! One frame on the wire is `[4-byte big-endian length][payload]`, where the
//! payload is one ciphertext (ciphertext plus tag) after the handshake.

use vstd::prelude::*;

verus! {

/// The four bytes of `x` in big-endian order.
pub open spec fn spec_u32_to_be(x: u32) -> Seq<u8> {
    seq![
        (x >> 24) as u8,
        (x >> 16) as u8,
        (x >> 8) as u8,
        x as u8,
    ]
}

/// The value read from four big-endian bytes.
pub open spec fn spec_u32_from_be(s: Seq<u8>) -> u32
    recommends
        s.len() == 4,
{
    (((s[0] as u32) << 24) | ((s[1] as u32) << 16) | ((s[2] as u32) << 8) | (s[3] as u32)) as u32
}

pub proof fn lemma_u32_be_round_trip(x: u32)
    ensures
        spec_u32_from_be(spec_u32_to_be(x)) == x,
{
    assert((((((x >> 24) as u8) as u32) << 24) | ((((x >> 16) as u8) as u32) << 16) | ((((x
        >> 8) as u8) as u32) << 8) | ((x as u8) as u32)) == x) by (bit_vector);
}

pub fn u32_to_be(x: u32) -> (r: Vec<u8>)
    ensures
        r@ =~= spec_u32_to_be(x),
{
    let mut r: Vec<u8> = Vec::new();
    r.push((x >> 24) as u8);
    r.push((x >> 16) as u8);
    r.push((x >> 8) as u8);
    r.push(x as u8);
    r
}

/// Reads a `u32` from four big-endian bytes starting at `at`.
pub fn u32_from_be(s: &Vec<u8>, at: usize) -> (r: u32)
    requires
        at + 4 <= s@.len(),
    ensures
        r == spec_u32_from_be(s@.subrange(at as int, at + 4)),
{
    let n = s.len();
    let r = ((s[at] as u32) << 24) | ((s[at + 1] as u32) << 16) | ((s[at + 2] as u32) << 8) | (
    s[at + 3] as u32);
    proof {
        let sub = s@.subrange(at as int, at + 4);
        assert(sub[0] == s@[at as int]);
        assert(sub[1] == s@[at + 1]);
        assert(sub[2] == s@[at + 2]);
        assert(sub[3] == s@[at + 3]);
    }
    r
}

/// The eight bytes of `x` in big-endian order.
pub open spec fn spec_u64_to_be(x: u64) -> Seq<u8> {
    seq![
        (x >> 56) as u8,
        (x >> 48) as u8,
        (x >> 40) as u8,
        (x >> 32) as u8,
        (x >> 24) as u8,
        (x >> 16) as u8,
        (x >> 8) as u8,
        x as u8,
    ]
}

pub fn u64_to_be(x: u64) -> (r: Vec<u8>)
    ensures
        r@ =~= spec_u64_to_be(x),
{
    let mut r: Vec<u8> = Vec::new();
    r.push((x >> 56) as u8);
    r.push((x >> 48) as u8);
    r.push((x >> 40) as u8);
    r.push((x >> 32) as u8);
    r.push((x >> 24) as u8);
    r.push((x >> 16) as u8);
    r.push((x >> 8) as u8);
    r.push(x as u8);
    r
}

/// The value read from eight big-endian bytes.
pub open spec fn spec_u64_from_be(s: Seq<u8>) -> u64
    recommends
        s.len() == 8,
{
    (((s[0] as u64) << 56) | ((s[1] as u64) << 48) | ((s[2] as u64) << 40) | ((s[3] as u64) << 32)
        | ((s[4] as u64) << 24) | ((s[5] as u64) << 16) | ((s[6] as u64) << 8) | (
    s[7] as u64)) as u64
}

pub proof fn lemma_u64_be_round_trip(x: u64)
    ensures
        spec_u64_from_be(spec_u64_to_be(x)) == x,
{
    assert(((((x >> 56) as u8 as u64) << 56) | (((x >> 48) as u8 as u64) << 48) | (((x
        >> 40) as u8 as u64) << 40) | (((x >> 32) as u8 as u64) << 32) | (((x
        >> 24) as u8 as u64) << 24) | (((x >> 16) as u8 as u64) << 16) | (((x
        >> 8) as u8 as u64) << 8) | (x as u8 as u64)) == x) by (bit_vector);
}

/// Reads a `u64` from eight big-endian bytes starting at `at`.
pub fn u64_from_be(s: &Vec<u8>, at: usize) -> (r: u64)
    requires
        at + 8 <= s@.len(),
    ensures
        r == spec_u64_from_be(s@.subrange(at as int, at + 8)),
{
    let n = s.len();
    let r = ((s[at] as u64) << 56) | ((s[at + 1] as u64) << 48) | ((s[at + 2] as u64) << 40) | ((
    s[at + 3] as u64) << 32) | ((s[at + 4] as u64) << 24) | ((s[at + 5] as u64) << 16) | ((s[at
        + 6] as u64) << 8) | (s[at + 7] as u64);
    proof {
        let sub = s@.subrange(at as int, at + 8);
        assert(forall|j: int| 0 <= j < 8 ==> #[trigger] sub[j] == s@[at + j]);
    }
    r
}

pub proof fn lemma_u64_be_injective(x: u64, y: u64)
    requires
        spec_u64_to_be(x) =~= spec_u64_to_be(y),
    ensures
        x == y,
{
    assert(((x >> 56) as u8 == (y >> 56) as u8 && (x >> 48) as u8 == (y >> 48) as u8 && (x
        >> 40) as u8 == (y >> 40) as u8 && (x >> 32) as u8 == (y >> 32) as u8 && (x >> 24) as u8
        == (y >> 24) as u8 && (x >> 16) as u8 == (y >> 16) as u8 && (x >> 8) as u8 == (y
        >> 8) as u8 && x as u8 == y as u8) ==> x == y) by (bit_vector);
}

/// Largest payload length a frame admits: the length must fit in its
/// four-byte prefix.
pub open spec fn spec_max_frame_payload() -> int {
    0xFFFF_FFFF
}

/// A whole frame: the payload's length as four big-endian bytes, then the
/// payload itself.
pub open spec fn spec_frame(payload: Seq<u8>) -> Seq<u8>
    recommends
        payload.len() <= spec_max_frame_payload(),
{
    spec_u32_to_be(payload.len() as u32) + payload
}

/// Wraps one payload as a wire frame with its length prefix.
pub fn encode_frame(payload: &Vec<u8>) -> (r: Vec<u8>)
    requires
        payload@.len() <= spec_max_frame_payload(),
    ensures
        r@ =~= spec_frame(payload@),
        r@.len() == payload@.len() + 4,
{
    let mut r = u32_to_be(payload.len() as u32);
    let mut i: usize = 0;
    while i < payload.len()
        invariant
            i <= payload@.len(),
            payload@.len() <= spec_max_frame_payload(),
            r@ =~= spec_u32_to_be(payload@.len() as u32) + payload@.subrange(0, i as int),
        decreases payload@.len() - i,
    {
        r.push(payload[i]);
        proof {
            assert(payload@.subrange(0, i + 1) =~= payload@.subrange(0, i as int).push(
                payload@[i as int],
            ));
        }
        i = i + 1;
    }
    proof {
        assert(payload@.subrange(0, payload@.len() as int) =~= payload@);
    }
    r
}

/// The payload length announced by a frame's four-byte header.
pub fn decode_frame_header(header: &Vec<u8>) -> (r: u32)
    requires
        header@.len() == 4,
    ensures
        r == spec_u32_from_be(header@),
{
    proof {
        assert(header@.subrange(0, 4) =~= header@);
    }
    u32_from_be(header, 0)
}

/// A frame parses back to the payload it was built from.
pub proof fn lemma_frame_round_trip(payload: Seq<u8>)
    requires
        payload.len() <= spec_max_frame_payload(),
    ensures
        spec_u32_from_be(spec_frame(payload).subrange(0, 4)) == payload.len(),
        spec_frame(payload).subrange(4, spec_frame(payload).len() as int) =~= payload,
{
    lemma_u32_be_round_trip(payload.len() as u32);
    assert(spec_frame(payload).subrange(0, 4) =~= spec_u32_to_be(payload.len() as u32));
}

/// Byte-for-byte equality of two buffers.
pub fn vecs_equal(a: &Vec<u8>, b: &Vec<u8>) -> (r: bool)
    ensures
        r == (a@ =~= b@),
{
    if a.len() != b.len() {
        return false;
    }
    let n = a.len();
    let mut i: usize = 0;
    while i < n
        invariant
            i <= n == a@.len(),
            b@.len() == n,
            forall|j: int| 0 <= j < i ==> a@[j] == b@[j],
        decreases n - i,
    {
        if a[i] != b[i] {
            return false;
        }
        i = i + 1;
    }
    true
}

} // verus!
