//! Printable encodings used by the shareable session string: lowercase hex
//! for the secret key and a fixed five-digit decimal field for the port.

use vstd::prelude::*;

verus! {

/// The lowercase hex character for one value below sixteen.
pub open spec fn spec_hex_char(d: u8) -> u8
    recommends
        d < 16,
{
    if d < 10 {
        (0x30 + d) as u8
    } else {
        (0x57 + d) as u8
    }
}

pub open spec fn spec_is_hex_char(c: u8) -> bool {
    (0x30 <= c && c <= 0x39) || (0x61 <= c && c <= 0x66)
}

/// The value of one lowercase hex character.
pub open spec fn spec_hex_val(c: u8) -> u8
    recommends
        spec_is_hex_char(c),
{
    if c <= 0x39 {
        (c - 0x30) as u8
    } else {
        (c - 0x57) as u8
    }
}

/// Two lowercase hex characters per byte, high nibble first.
pub open spec fn spec_hex_of(b: Seq<u8>) -> Seq<u8> {
    Seq::new(
        2 * b.len(),
        |i: int|
            if i % 2 == 0 {
                spec_hex_char(b[i / 2] / 16)
            } else {
                spec_hex_char((b[i / 2] % 16) as u8)
            },
    )
}

/// The bytes read back from a sequence of hex character pairs.
pub open spec fn spec_hex_decode(s: Seq<u8>) -> Seq<u8>
    recommends
        s.len() % 2 == 0,
{
    Seq::new((s.len() / 2) as nat, |i: int| (spec_hex_val(s[2 * i]) * 16 + spec_hex_val(
        s[2 * i + 1],
    )) as u8)
}

pub open spec fn spec_all_hex(s: Seq<u8>) -> bool {
    forall|i: int| 0 <= i < s.len() ==> spec_is_hex_char(#[trigger] s[i])
}

/// Hex encoding emits only hex characters.
pub proof fn lemma_hex_of_is_hex(b: Seq<u8>)
    ensures
        spec_all_hex(spec_hex_of(b)),
{
}

/// Decoding undoes encoding.
pub proof fn lemma_hex_round_trip(b: Seq<u8>)
    ensures
        spec_hex_decode(spec_hex_of(b)) =~= b,
{
}

pub fn hex_encode(b: &Vec<u8>) -> (r: Vec<u8>)
    requires
        2 * b@.len() <= usize::MAX,
    ensures
        r@ =~= spec_hex_of(b@),
{
    let mut r: Vec<u8> = Vec::new();
    let mut i: usize = 0;
    while i < b.len()
        invariant
            i <= b@.len(),
            2 * b@.len() <= usize::MAX,
            r@ =~= spec_hex_of(b@.subrange(0, i as int)),
        decreases b@.len() - i,
    {
        let x = b[i];
        let hi = x / 16;
        let lo = x % 16;
        r.push(if hi < 10 {
            0x30 + hi
        } else {
            0x57 + hi
        });
        r.push(if lo < 10 {
            0x30 + lo
        } else {
            0x57 + lo
        });
        proof {
            assert(r@ =~= spec_hex_of(b@.subrange(0, i + 1)));
        }
        i = i + 1;
    }
    proof {
        assert(b@.subrange(0, b@.len() as int) =~= b@);
    }
    r
}

/// Decodes `count` bytes from the hex characters of `s` starting at `at`.
/// Returns `None` exactly when some character in that range is not a
/// lowercase hex digit.
pub fn hex_decode(s: &Vec<u8>, at: usize, count: usize) -> (r: Option<Vec<u8>>)
    requires
        at + 2 * count <= s@.len(),
    ensures
        r is Some <==> spec_all_hex(s@.subrange(at as int, at + 2 * count)),
        r is Some ==> r->0@ =~= spec_hex_decode(s@.subrange(at as int, at + 2 * count)),
{
    let ghost field = s@.subrange(at as int, at + 2 * count);
    let n = s.len();
    let mut out: Vec<u8> = Vec::new();
    let mut i: usize = 0;
    while i < count
        invariant
            i <= count,
            at + 2 * count <= s@.len(),
            s@.len() == n,
            field == s@.subrange(at as int, at + 2 * count),
            forall|j: int| 0 <= j < 2 * i ==> spec_is_hex_char(#[trigger] field[j]),
            out@ =~= spec_hex_decode(field.subrange(0, 2 * i as int)),
        decreases count - i,
    {
        let c1 = s[at + 2 * i];
        let c2 = s[at + 2 * i + 1];
        proof {
            assert(field[2 * i as int] == c1 && field[2 * i + 1] == c2);
        }
        let h1 = if 0x30 <= c1 && c1 <= 0x39 {
            c1 - 0x30
        } else if 0x61 <= c1 && c1 <= 0x66 {
            c1 - 0x57
        } else {
            proof {
                assert(!spec_is_hex_char(field[2 * i as int]));
            }
            return None;
        };
        let h2 = if 0x30 <= c2 && c2 <= 0x39 {
            c2 - 0x30
        } else if 0x61 <= c2 && c2 <= 0x66 {
            c2 - 0x57
        } else {
            proof {
                assert(!spec_is_hex_char(field[2 * i + 1]));
            }
            return None;
        };
        out.push(h1 * 16 + h2);
        proof {
            assert(out@ =~= spec_hex_decode(field.subrange(0, 2 * (i + 1))));
        }
        i = i + 1;
    }
    proof {
        assert(field.subrange(0, 2 * count as int) =~= field);
    }
    Some(out)
}

pub open spec fn spec_is_dec_char(c: u8) -> bool {
    0x30 <= c && c <= 0x39
}

/// The five decimal characters of a port value, zero-padded, most
/// significant first.
pub open spec fn spec_dec5_of(p: u16) -> Seq<u8> {
    seq![
        (0x30 + p / 10 / 10 / 10 / 10 % 10) as u8,
        (0x30 + p / 10 / 10 / 10 % 10) as u8,
        (0x30 + p / 10 / 10 % 10) as u8,
        (0x30 + p / 10 % 10) as u8,
        (0x30 + p % 10) as u8,
    ]
}

pub open spec fn spec_all_dec(s: Seq<u8>) -> bool {
    forall|i: int| 0 <= i < s.len() ==> spec_is_dec_char(#[trigger] s[i])
}

/// The numeric value of five decimal characters, by Horner's rule.
pub open spec fn spec_dec5_val(s: Seq<u8>) -> int
    recommends
        s.len() == 5,
        spec_all_dec(s),
{
    (((((s[0] - 0x30) * 10 + (s[1] - 0x30)) * 10 + (s[2] - 0x30)) * 10 + (s[3] - 0x30)) * 10 + (
    s[4] - 0x30))
}

/// The five-digit field holds only decimal characters and reads back to the
/// port it was built from.
pub proof fn lemma_dec5_round_trip(p: u16)
    ensures
        spec_all_dec(spec_dec5_of(p)),
        spec_dec5_val(spec_dec5_of(p)) == p,
{
    let q1 = p / 10;
    let q2 = q1 / 10;
    let q3 = q2 / 10;
    let q4 = q3 / 10;
    assert(q4 < 10);
    assert(q4 % 10 == q4);
    assert(q3 == q4 * 10 + q3 % 10);
    assert(q2 == q3 * 10 + q2 % 10);
    assert(q1 == q2 * 10 + q1 % 10);
    assert(p == q1 * 10 + p % 10);
}

pub fn dec5_encode(p: u16) -> (r: Vec<u8>)
    ensures
        r@ =~= spec_dec5_of(p),
{
    let mut r: Vec<u8> = Vec::new();
    r.push(0x30 + (p / 10000 % 10) as u8);
    r.push(0x30 + (p / 1000 % 10) as u8);
    r.push(0x30 + (p / 100 % 10) as u8);
    r.push(0x30 + (p / 10 % 10) as u8);
    r.push(0x30 + (p % 10) as u8);
    proof {
        assert(p / 10000 == p / 10 / 10 / 10 / 10) by {
            vstd::arithmetic::div_mod::lemma_div_denominator(p as int, 10, 10);
            vstd::arithmetic::div_mod::lemma_div_denominator(p as int, 100, 10);
            vstd::arithmetic::div_mod::lemma_div_denominator(p as int, 1000, 10);
        }
        assert(p / 1000 == p / 10 / 10 / 10) by {
            vstd::arithmetic::div_mod::lemma_div_denominator(p as int, 10, 10);
            vstd::arithmetic::div_mod::lemma_div_denominator(p as int, 100, 10);
        }
        assert(p / 100 == p / 10 / 10) by {
            vstd::arithmetic::div_mod::lemma_div_denominator(p as int, 10, 10);
        }
    }
    r
}

/// Reads the five-digit decimal field of `s` starting at `at`. Returns
/// `None` exactly when a character is not a decimal digit or the value does
/// not fit a port number.
pub fn dec5_decode(s: &Vec<u8>, at: usize) -> (r: Option<u16>)
    requires
        at + 5 <= s@.len(),
    ensures
        r is Some <==> (spec_all_dec(s@.subrange(at as int, at + 5)) && spec_dec5_val(
            s@.subrange(at as int, at + 5),
        ) <= u16::MAX),
        r is Some ==> r->0 == spec_dec5_val(s@.subrange(at as int, at + 5)),
{
    let ghost field = s@.subrange(at as int, at + 5);
    let n = s.len();
    let mut acc: u32 = 0;
    let mut i: usize = 0;
    while i < 5
        invariant
            i <= 5,
            at + 5 <= s@.len(),
            s@.len() == n,
            field == s@.subrange(at as int, at + 5),
            forall|j: int| 0 <= j < i ==> spec_is_dec_char(#[trigger] field[j]),
            acc <= 99999,
            i == 1 ==> acc == field[0] - 0x30,
            i == 2 ==> acc == (field[0] - 0x30) * 10 + (field[1] - 0x30),
            i == 3 ==> acc == ((field[0] - 0x30) * 10 + (field[1] - 0x30)) * 10 + (field[2]
                - 0x30),
            i == 4 ==> acc == (((field[0] - 0x30) * 10 + (field[1] - 0x30)) * 10 + (field[2]
                - 0x30)) * 10 + (field[3] - 0x30),
            i == 5 ==> acc == spec_dec5_val(field),
            i == 0 ==> acc == 0,
        decreases 5 - i,
    {
        let c = s[at + i];
        if c < 0x30 || c > 0x39 {
            return None;
        }
        proof {
            assert(field[i as int] == c);
        }
        acc = acc * 10 + (c - 0x30) as u32;
        i = i + 1;
    }
    if acc > 65535 {
        return None;
    }
    Some(acc as u16)
}

} // verus!
