//! Request and response envelopes and their byte serialization.
//!
//! One envelope is `[8-byte id][4-byte entry count][entries]`, each entry a
//! length-prefixed blob, all integers big-endian. The entries' meaning
//! belongs to the business-logic layer; the core only moves them. A request
//! carries one or more entries (one logical batch); a response mirrors it.

use crate::wire::{
    lemma_u32_be_round_trip, lemma_u64_be_round_trip, spec_frame, spec_u32_from_be, spec_u32_to_be,
    spec_u64_from_be, spec_u64_to_be, u32_from_be, u32_to_be, u64_from_be, u64_to_be,
};
use vstd::prelude::*;

verus! {

/// Most entries one envelope may carry.
pub const MAX_ENTRIES: usize = 64;

/// Largest single entry, in bytes.
pub const MAX_ENTRY_LEN: usize = 0xFFFF;

/// A decrypted frame did not hold a well-formed envelope. The connection's
/// protocol is not trustworthy and the request loop ends.
#[derive(Clone, Copy, Debug, PartialEq, Eq, Structural)]
pub enum DeserializeError {
    Malformed,
}

/// The entries of a payload as mathematical sequences.
pub open spec fn entries_view(v: Seq<Vec<u8>>) -> Seq<Seq<u8>> {
    Seq::new(v.len(), |i: int| v[i]@)
}

/// Entries in sequence, each as a length-prefixed blob.
pub open spec fn spec_entries_encode(es: Seq<Seq<u8>>) -> Seq<u8>
    decreases es.len(),
{
    if es.len() == 0 {
        Seq::empty()
    } else {
        spec_frame(es[0]) + spec_entries_encode(es.drop_first())
    }
}

/// The whole envelope: id, entry count, entries.
pub open spec fn spec_msg_encode(id: u64, es: Seq<Seq<u8>>) -> Seq<u8> {
    spec_u64_to_be(id) + spec_u32_to_be(es.len() as u32) + spec_entries_encode(es)
}

/// Reads exactly `count` length-prefixed entries covering all of `s`.
pub open spec fn spec_parse_entries(s: Seq<u8>, count: nat) -> Option<Seq<Seq<u8>>>
    decreases count,
{
    if count == 0 {
        if s.len() == 0 {
            Some(Seq::empty())
        } else {
            None
        }
    } else if s.len() < 4 {
        None
    } else {
        let l = spec_u32_from_be(s.subrange(0, 4)) as int;
        if s.len() < 4 + l {
            None
        } else {
            match spec_parse_entries(s.skip(4 + l), (count - 1) as nat) {
                Some(rest) => Some(seq![s.subrange(4, 4 + l)] + rest),
                None => None,
            }
        }
    }
}

/// The envelope a byte string holds, if any: at least a header, at least one
/// entry, and the entries covering the rest exactly.
pub open spec fn spec_msg_decode(s: Seq<u8>) -> Option<(u64, Seq<Seq<u8>>)> {
    if s.len() < 12 {
        None
    } else {
        let id = spec_u64_from_be(s.subrange(0, 8));
        let count = spec_u32_from_be(s.subrange(8, 12));
        if count == 0 {
            None
        } else {
            match spec_parse_entries(s.skip(12), count as nat) {
                Some(es) => Some((id, es)),
                None => None,
            }
        }
    }
}

/// Well-formed payload: one entry at least, bounded count and entry sizes.
pub open spec fn spec_payload_wf(es: Seq<Seq<u8>>) -> bool {
    &&& 1 <= es.len() <= MAX_ENTRIES
    &&& forall|i: int| 0 <= i < es.len() ==> (#[trigger] es[i]).len() <= MAX_ENTRY_LEN
}

/// Appending one entry extends the encoding at its end.
pub proof fn lemma_entries_encode_snoc(es: Seq<Seq<u8>>, e: Seq<u8>)
    ensures
        spec_entries_encode(es.push(e)) =~= spec_entries_encode(es) + spec_frame(e),
    decreases es.len(),
{
    let es2 = es.push(e);
    if es.len() == 0 {
        assert(es2[0] == e);
        assert(es2.drop_first() =~= Seq::<Seq<u8>>::empty());
        assert(spec_entries_encode(es2) == spec_frame(e) + spec_entries_encode(es2.drop_first()));
        assert(spec_entries_encode(es2.drop_first()) == Seq::<u8>::empty());
        assert(spec_entries_encode(es) == Seq::<u8>::empty());
    } else {
        assert(es2[0] == es[0]);
        assert(es2.drop_first() =~= es.drop_first().push(e));
        assert(spec_entries_encode(es2) == spec_frame(es[0]) + spec_entries_encode(
            es.drop_first().push(e),
        ));
        lemma_entries_encode_snoc(es.drop_first(), e);
        assert(spec_entries_encode(es) == spec_frame(es[0]) + spec_entries_encode(
            es.drop_first(),
        ));
    }
}

/// A bound on the encoding's size from bounds on the entries.
pub proof fn lemma_entries_encode_len(es: Seq<Seq<u8>>)
    requires
        forall|i: int| 0 <= i < es.len() ==> (#[trigger] es[i]).len() <= MAX_ENTRY_LEN,
    ensures
        spec_entries_encode(es).len() <= es.len() * (4 + MAX_ENTRY_LEN),
    decreases es.len(),
{
    if es.len() > 0 {
        assert(forall|i: int|
            0 <= i < es.drop_first().len() ==> (#[trigger] es.drop_first()[i]).len()
                <= MAX_ENTRY_LEN);
        lemma_entries_encode_len(es.drop_first());
        assert(es.len() * (4 + MAX_ENTRY_LEN) == (es.len() - 1) * (4 + MAX_ENTRY_LEN) + (4
            + MAX_ENTRY_LEN)) by (nonlinear_arith);
    }
}

/// Parsing undoes encoding, entry list level.
pub proof fn lemma_parse_entries_round_trip(es: Seq<Seq<u8>>)
    requires
        forall|i: int| 0 <= i < es.len() ==> (#[trigger] es[i]).len() <= MAX_ENTRY_LEN,
    ensures
        spec_parse_entries(spec_entries_encode(es), es.len() as nat) == Some(es),
    decreases es.len(),
{
    let s = spec_entries_encode(es);
    if es.len() == 0 {
        assert(s.len() == 0);
    } else {
        let e = es[0];
        let rest = es.drop_first();
        lemma_u32_be_round_trip(e.len() as u32);
        assert(s =~= spec_frame(e) + spec_entries_encode(rest));
        assert(s.subrange(0, 4) =~= spec_u32_to_be(e.len() as u32));
        let l = spec_u32_from_be(s.subrange(0, 4)) as int;
        assert(l == e.len());
        assert(s.len() == 4 + l + spec_entries_encode(rest).len());
        assert(s.subrange(4, 4 + l) =~= e);
        assert(s.skip(4 + l) =~= spec_entries_encode(rest));
        assert(forall|i: int| 0 <= i < rest.len() ==> (#[trigger] rest[i]).len() <= MAX_ENTRY_LEN);
        lemma_parse_entries_round_trip(rest);
        assert(seq![e] + rest =~= es);
    }
}

/// Round trip: every well-formed envelope decodes back to itself.
pub proof fn lemma_msg_round_trip(id: u64, es: Seq<Seq<u8>>)
    requires
        spec_payload_wf(es),
    ensures
        spec_msg_decode(spec_msg_encode(id, es)) == Some((id, es)),
{
    let s = spec_msg_encode(id, es);
    lemma_u64_be_round_trip(id);
    lemma_u32_be_round_trip(es.len() as u32);
    assert(s.subrange(0, 8) =~= spec_u64_to_be(id));
    assert(s.subrange(8, 12) =~= spec_u32_to_be(es.len() as u32));
    assert(s.skip(12) =~= spec_entries_encode(es));
    lemma_parse_entries_round_trip(es);
}

/// Encodes one envelope. The result is exactly `spec_msg_encode` and always
/// fits one frame's plaintext.
pub fn encode_envelope(id: u64, payload: &Vec<Vec<u8>>) -> (r: Vec<u8>)
    requires
        spec_payload_wf(entries_view(payload@)),
    ensures
        r@ =~= spec_msg_encode(id, entries_view(payload@)),
        r@.len() <= crate::codec::MAX_PLAINTEXT,
{
    let ghost es = entries_view(payload@);
    let mut r = u64_to_be(id);
    let mut count_part = u32_to_be(payload.len() as u32);
    r.append(&mut count_part);
    let mut i: usize = 0;
    while i < payload.len()
        invariant
            i <= payload@.len(),
            es == entries_view(payload@),
            spec_payload_wf(es),
            es.len() == payload@.len(),
            r@ =~= spec_u64_to_be(id) + spec_u32_to_be(es.len() as u32) + spec_entries_encode(
                es.subrange(0, i as int),
            ),
        decreases payload@.len() - i,
    {
        proof {
            assert(es[i as int] == payload@[i as int]@);
            assert(es[i as int].len() <= MAX_ENTRY_LEN);
        }
        let mut part = crate::wire::encode_frame(&payload[i]);
        r.append(&mut part);
        proof {
            assert(es.subrange(0, i + 1) =~= es.subrange(0, i as int).push(es[i as int]));
            lemma_entries_encode_snoc(es.subrange(0, i as int), es[i as int]);
        }
        i = i + 1;
    }
    proof {
        assert(es.subrange(0, es.len() as int) =~= es);
        lemma_entries_encode_len(es);
    }
    r
}

/// Decodes one envelope: exactly the byte strings `spec_msg_decode` accepts,
/// yielding exactly its fields.
pub fn decode_envelope(s: &Vec<u8>) -> (r: Result<(u64, Vec<Vec<u8>>), DeserializeError>)
    ensures
        r is Ok <==> spec_msg_decode(s@) is Some,
        r is Ok ==> {
            let got = r->Ok_0;
            let want = spec_msg_decode(s@)->0;
            got.0 == want.0 && entries_view(got.1@) == want.1
        },
{
    let n = s.len();
    if n < 12 {
        return Err(DeserializeError::Malformed);
    }
    let id = u64_from_be(s, 0);
    proof {
        assert(s@.subrange(0, 8) =~= s@.subrange(0int, 8int));
    }
    let count = u32_from_be(s, 8);
    proof {
        assert(s@.subrange(8, 12) =~= s@.subrange(8int, 12int));
    }
    if count == 0 {
        return Err(DeserializeError::Malformed);
    }
    let ghost region = s@.skip(12);
    let mut out: Vec<Vec<u8>> = Vec::new();
    let mut pos: usize = 12;
    let mut i: u32 = 0;
    while i < count
        invariant
            0 <= i <= count,
            12 <= pos <= n == s@.len(),
            region == s@.skip(12),
            count == spec_u32_from_be(s@.subrange(8, 12)),
            count > 0,
            id == spec_u64_from_be(s@.subrange(0, 8)),
            entries_view(out@).len() == i,
            spec_parse_entries(region, count as nat) == (match spec_parse_entries(
                s@.skip(pos as int),
                (count - i) as nat,
            ) {
                Some(rest) => Some(entries_view(out@) + rest),
                None => None::<Seq<Seq<u8>>>,
            }),
        decreases count - i,
    {
        let ghost tail = s@.skip(pos as int);
        if n - pos < 4 {
            proof {
                assert(tail.len() < 4);
                assert(spec_parse_entries(tail, (count - i) as nat) is None);
            }
            return Err(DeserializeError::Malformed);
        }
        let l = u32_from_be(s, pos);
        proof {
            assert(tail.subrange(0, 4) =~= s@.subrange(pos as int, pos + 4));
            assert(spec_u32_from_be(tail.subrange(0, 4)) == l);
        }
        if (l as usize) > n - pos - 4 {
            proof {
                assert(tail.len() < 4 + l);
                assert(spec_parse_entries(tail, (count - i) as nat) is None);
            }
            return Err(DeserializeError::Malformed);
        }
        let mut entry: Vec<u8> = Vec::new();
        let mut j: usize = 0;
        while j < l as usize
            invariant
                j <= l,
                12 <= pos <= n == s@.len(),
                pos + 4 + l <= n,
                entry@ =~= s@.subrange(pos + 4, pos + 4 + j),
            decreases l - j,
        {
            entry.push(s[pos + 4 + j]);
            proof {
                assert(s@.subrange(pos + 4, pos + 4 + (j + 1)) =~= s@.subrange(
                    pos + 4,
                    pos + 4 + j,
                ).push(s@[pos + 4 + j]));
            }
            j = j + 1;
        }
        proof {
            assert(entry@ =~= tail.subrange(4, 4 + l));
            assert(tail.skip(4 + l) =~= s@.skip(pos + 4 + l));
            assert(spec_parse_entries(tail, (count - i) as nat) == (
            match spec_parse_entries(s@.skip(pos + 4 + l), (count - i - 1) as nat) {
                Some(rest) => Some(seq![entry@] + rest),
                None => None::<Seq<Seq<u8>>>,
            }));
        }
        let ghost dv_before = entries_view(out@);
        let ghost entry_view = entry@;
        out.push(entry);
        proof {
            assert(entries_view(out@) =~= dv_before.push(entry_view));
            if spec_parse_entries(s@.skip(pos + 4 + l), (count - i - 1) as nat) is Some {
                let rest = spec_parse_entries(s@.skip(pos + 4 + l), (count - i - 1) as nat)->0;
                assert(dv_before + (seq![entry_view] + rest) =~= dv_before.push(entry_view)
                    + rest);
            }
        }
        pos = pos + 4 + (l as usize);
        i = i + 1;
    }
    if pos != n {
        proof {
            assert(s@.skip(pos as int).len() != 0);
            assert(spec_parse_entries(s@.skip(pos as int), 0) is None);
        }
        return Err(DeserializeError::Malformed);
    }
    proof {
        assert(s@.skip(pos as int).len() == 0);
        assert(spec_parse_entries(s@.skip(pos as int), 0) == Some(Seq::<Seq<u8>>::empty()));
        assert(entries_view(out@) + Seq::<Seq<u8>>::empty() =~= entries_view(out@));
    }
    Ok((id, out))
}

/// A client's message: one logical transaction, one or more payload
/// entries. What the entries mean belongs to the handler layer.
#[derive(Debug)]
pub struct Request {
    pub id: u64,
    pub payload: Vec<Vec<u8>>,
}

/// The server's answer to a request; one request may fan out to several.
#[derive(Debug)]
pub struct Response {
    pub id: u64,
    pub payload: Vec<Vec<u8>>,
}

impl Request {
    pub open spec fn wf(&self) -> bool {
        spec_payload_wf(entries_view(self.payload@))
    }

    /// How many payload entries the batch carries — the short summary a log
    /// line reports.
    pub fn payload_count(&self) -> (r: usize)
        ensures
            r == entries_view(self.payload@).len(),
    {
        self.payload.len()
    }

    /// This request as one plaintext frame.
    pub fn to_frame(&self) -> (r: Vec<u8>)
        requires
            self.wf(),
        ensures
            r@ =~= spec_msg_encode(self.id, entries_view(self.payload@)),
            r@.len() <= crate::codec::MAX_PLAINTEXT,
    {
        encode_envelope(self.id, &self.payload)
    }

    /// Reads a request back from one plaintext frame: exactly the frames
    /// `spec_msg_decode` accepts, yielding exactly its fields.
    pub fn from_frame(s: &Vec<u8>) -> (r: Result<Request, DeserializeError>)
        ensures
            r is Ok <==> spec_msg_decode(s@) is Some,
            r is Ok ==> {
                let want = spec_msg_decode(s@)->0;
                r->Ok_0.id == want.0 && entries_view(r->Ok_0.payload@) == want.1
            },
    {
        match decode_envelope(s) {
            Ok((id, payload)) => Ok(Request { id, payload }),
            Err(e) => Err(e),
        }
    }
}

impl Response {
    pub open spec fn wf(&self) -> bool {
        spec_payload_wf(entries_view(self.payload@))
    }

    /// How many payload entries the answer carries.
    pub fn payload_count(&self) -> (r: usize)
        ensures
            r == entries_view(self.payload@).len(),
    {
        self.payload.len()
    }

    /// This response as one plaintext frame.
    pub fn to_frame(&self) -> (r: Vec<u8>)
        requires
            self.wf(),
        ensures
            r@ =~= spec_msg_encode(self.id, entries_view(self.payload@)),
            r@.len() <= crate::codec::MAX_PLAINTEXT,
    {
        encode_envelope(self.id, &self.payload)
    }

    /// Reads a response back from one plaintext frame: exactly the frames
    /// `spec_msg_decode` accepts, yielding exactly its fields.
    pub fn from_frame(s: &Vec<u8>) -> (r: Result<Response, DeserializeError>)
        ensures
            r is Ok <==> spec_msg_decode(s@) is Some,
            r is Ok ==> {
                let want = spec_msg_decode(s@)->0;
                r->Ok_0.id == want.0 && entries_view(r->Ok_0.payload@) == want.1
            },
    {
        match decode_envelope(s) {
            Ok((id, payload)) => Ok(Response { id, payload }),
            Err(e) => Err(e),
        }
    }
}

} // verus!
