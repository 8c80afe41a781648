//! The session descriptor: host, port and shared secret key, with its
//! reversible, delimiter-safe shareable encoding.
//!
//! The shareable form is `host` + space + five decimal digits of the port +
//! space + sixty-four lowercase hex digits of the key. The two fixed-width
//! fields sit at the end, so parsing needs no search and the host may be any
//! run of printable characters.

use crate::textenc::{
    dec5_decode, dec5_encode, hex_decode, hex_encode, lemma_dec5_round_trip, lemma_hex_of_is_hex,
    lemma_hex_round_trip, spec_all_dec, spec_all_hex, spec_dec5_of, spec_dec5_val, spec_hex_decode,
    spec_hex_of,
};
use vstd::prelude::*;
use vstd::string::{StrSliceExecFns, StringSliceAdditionalSpecFns};

verus! {

/// Bytes of the secret key.
pub const KEY_LEN: usize = 32;

/// Why a shareable string failed to parse.
#[derive(Clone, Copy, Debug, PartialEq, Eq, Structural)]
pub enum FormatError {
    /// Too short to hold a host, a port field and a key field.
    Length,
    /// A field separator is missing.
    Delimiter,
    /// The host field holds a character that is not printable.
    Host,
    /// The port field is not five digits or exceeds the largest port.
    Port,
    /// The key field is not sixty-four lowercase hex digits.
    Key,
}

/// A server endpoint and the shared secret that protects it.
pub struct Session {
    pub host: Vec<u8>,
    pub port: u16,
    pub auth_key: Vec<u8>,
}

/// A printable, non-space character.
pub open spec fn spec_host_char(c: u8) -> bool {
    0x21 <= c && c <= 0x7E
}

pub open spec fn spec_host_ok(host: Seq<u8>) -> bool {
    host.len() >= 1 && forall|i: int| 0 <= i < host.len() ==> spec_host_char(#[trigger] host[i])
}

impl Session {
    /// A session is well formed when its host is a nonempty run of
    /// printable non-space characters and its key has the fixed length.
    pub open spec fn wf(&self) -> bool {
        spec_host_ok(self.host@) && self.auth_key@.len() == KEY_LEN
    }

    /// Gives up the session and hands its secret key to a transport.
    pub fn into_auth_key(self) -> (r: Vec<u8>)
        ensures
            r@ == self.auth_key@,
    {
        self.auth_key
    }
}

/// The shareable byte form of a session.
pub open spec fn spec_session_encode(host: Seq<u8>, port: u16, key: Seq<u8>) -> Seq<u8> {
    host + seq![0x20u8] + spec_dec5_of(port) + seq![0x20u8] + spec_hex_of(key)
}

/// Whether `s` is a well-formed shareable string, field by field.
pub open spec fn spec_len_ok(s: Seq<u8>) -> bool {
    s.len() >= 72
}

pub open spec fn spec_delims_ok(s: Seq<u8>) -> bool
    recommends
        spec_len_ok(s),
{
    s[s.len() - 71] == 0x20 && s[s.len() - 65] == 0x20
}

pub open spec fn spec_host_field(s: Seq<u8>) -> Seq<u8> {
    s.subrange(0, s.len() - 71)
}

pub open spec fn spec_port_field(s: Seq<u8>) -> Seq<u8> {
    s.subrange(s.len() - 70, s.len() - 65)
}

pub open spec fn spec_key_field(s: Seq<u8>) -> Seq<u8> {
    s.subrange(s.len() - 64, s.len() as int)
}

pub open spec fn spec_port_ok(s: Seq<u8>) -> bool {
    spec_all_dec(spec_port_field(s)) && spec_dec5_val(spec_port_field(s)) <= u16::MAX
}

pub open spec fn spec_key_ok(s: Seq<u8>) -> bool {
    spec_all_hex(spec_key_field(s))
}

/// A string parses to a session exactly when all four checks pass.
pub open spec fn spec_session_valid(s: Seq<u8>) -> bool {
    spec_len_ok(s) && spec_delims_ok(s) && spec_host_ok(spec_host_field(s)) && spec_port_ok(s)
        && spec_key_ok(s)
}

impl Session {
    /// The shareable byte string: host, port and key in one reversible,
    /// delimiter-safe line.
    pub fn to_shareable_bytes(&self) -> (r: Vec<u8>)
        requires
            self.wf(),
        ensures
            r@ =~= spec_session_encode(self.host@, self.port, self.auth_key@),
            r@.len() == self.host@.len() + 71,
    {
        let mut r: Vec<u8> = Vec::new();
        r.extend_from_slice(self.host.as_slice());
        r.push(0x20);
        let mut port_part = dec5_encode(self.port);
        r.append(&mut port_part);
        r.push(0x20);
        let mut key_part = hex_encode(&self.auth_key);
        r.append(&mut key_part);
        r
    }

    /// Parses a shareable byte string back into a session. Succeeds exactly
    /// on well-formed strings; each error names the first check that failed,
    /// in the order length, delimiters, host, port, key.
    pub fn parse_bytes(s: &Vec<u8>) -> (r: Result<Session, FormatError>)
        ensures
            r is Ok <==> spec_session_valid(s@),
            r is Ok ==> {
                &&& r->Ok_0.wf()
                &&& r->Ok_0.host@ =~= spec_host_field(s@)
                &&& r->Ok_0.port == spec_dec5_val(spec_port_field(s@))
                &&& r->Ok_0.auth_key@ =~= spec_hex_decode(spec_key_field(s@))
            },
            r is Err ==> r->Err_0 == spec_parse_error(s@),
    {
        let n = s.len();
        if n < 72 {
            return Err(FormatError::Length);
        }
        if s[n - 71] != 0x20 || s[n - 65] != 0x20 {
            return Err(FormatError::Delimiter);
        }
        let mut host: Vec<u8> = Vec::new();
        let mut i: usize = 0;
        while i < n - 71
            invariant
                i <= n - 71,
                72 <= n == s@.len(),
                spec_delims_ok(s@),
                host@ =~= s@.subrange(0, i as int),
                forall|j: int| 0 <= j < i ==> spec_host_char(#[trigger] s@[j]),
            decreases n - 71 - i,
        {
            let c = s[i];
            if c < 0x21 || c > 0x7E {
                proof {
                    assert(spec_host_field(s@)[i as int] == c);
                    assert(!spec_host_ok(spec_host_field(s@)));
                }
                return Err(FormatError::Host);
            }
            host.push(c);
            i = i + 1;
        }
        proof {
            assert(host@ =~= spec_host_field(s@));
            assert(forall|j: int|
                0 <= j < spec_host_field(s@).len() ==> spec_host_char(
                    #[trigger] spec_host_field(s@)[j],
                ));
        }
        let port = match dec5_decode(s, n - 70) {
            Some(p) => p,
            None => {
                return Err(FormatError::Port);
            },
        };
        let auth_key = match hex_decode(s, n - 64, 32) {
            Some(k) => k,
            None => {
                return Err(FormatError::Key);
            },
        };
        Ok(Session { host, port, auth_key })
    }
}

/// Relies on String::from_utf8: bytes below 0x80 are valid UTF-8, and the
/// string holds exactly those bytes, one character each.
#[verifier::external_body]
fn ascii_to_string(b: Vec<u8>) -> (r: String)
    requires
        forall|i: int| 0 <= i < b@.len() ==> b@[i] < 0x80,
    ensures
        r@.len() == b@.len(),
        forall|i: int| 0 <= i < b@.len() ==> r@[i] == b@[i] as char,
{
    match String::from_utf8(b) {
        Ok(s) => s,
        Err(_) => String::new(),
    }
}

impl Session {
    /// The shareable string printed once at startup for out-of-band sharing:
    /// host, port and key in one printable line. The key leaves the process
    /// only here.
    pub fn to_shareable_string(&self) -> (r: String)
        requires
            self.wf(),
        ensures
            r@.len() == spec_session_encode(self.host@, self.port, self.auth_key@).len(),
            forall|i: int|
                0 <= i < r@.len() ==> r@[i] == spec_session_encode(
                    self.host@,
                    self.port,
                    self.auth_key@,
                )[i] as char,
    {
        let bytes = self.to_shareable_bytes();
        proof {
            lemma_session_encode_ascii(self.host@, self.port, self.auth_key@);
        }
        ascii_to_string(bytes)
    }

    /// Parses a shareable string, as copied from a server's startup output.
    /// Succeeds exactly on the strings whose bytes form a well-formed
    /// shareable encoding.
    pub fn parse(s: &str) -> (r: Result<Session, FormatError>)
        ensures
            r is Ok <==> spec_session_valid(s.spec_bytes()),
            r is Ok ==> {
                &&& r->Ok_0.wf()
                &&& r->Ok_0.host@ =~= spec_host_field(s.spec_bytes())
                &&& r->Ok_0.port == spec_dec5_val(spec_port_field(s.spec_bytes()))
                &&& r->Ok_0.auth_key@ =~= spec_hex_decode(spec_key_field(s.spec_bytes()))
            },
            r is Err ==> r->Err_0 == spec_parse_error(s.spec_bytes()),
    {
        let bytes = s.as_bytes_vec();
        Session::parse_bytes(&bytes)
    }
}

/// The first check that fails on an invalid shareable string.
pub open spec fn spec_parse_error(s: Seq<u8>) -> FormatError {
    if !spec_len_ok(s) {
        FormatError::Length
    } else if !spec_delims_ok(s) {
        FormatError::Delimiter
    } else if !spec_host_ok(spec_host_field(s)) {
        FormatError::Host
    } else if !spec_port_ok(s) {
        FormatError::Port
    } else {
        FormatError::Key
    }
}

/// Round trip: every well-formed session survives encoding and parsing
/// unchanged in host, port and key.
pub proof fn lemma_session_round_trip(host: Seq<u8>, port: u16, key: Seq<u8>)
    requires
        spec_host_ok(host),
        key.len() == KEY_LEN,
    ensures
        spec_session_valid(spec_session_encode(host, port, key)),
        spec_host_field(spec_session_encode(host, port, key)) =~= host,
        spec_dec5_val(spec_port_field(spec_session_encode(host, port, key))) == port,
        spec_hex_decode(spec_key_field(spec_session_encode(host, port, key))) =~= key,
{
    let e = spec_session_encode(host, port, key);
    assert(e.len() == host.len() + 71);
    assert(spec_host_field(e) =~= host);
    assert(spec_port_field(e) =~= spec_dec5_of(port));
    assert(spec_key_field(e) =~= spec_hex_of(key));
    lemma_dec5_round_trip(port);
    lemma_hex_of_is_hex(key);
    lemma_hex_round_trip(key);
}

/// The session string law, end to end: printing a session and parsing the
/// printed string yields a session equal in host, port and key.
pub fn shareable_round_trip(s: &Session) -> (r: bool)
    requires
        s.wf(),
    ensures
        r,
{
    let ghost enc = spec_session_encode(s.host@, s.port, s.auth_key@);
    proof {
        lemma_session_encode_ascii(s.host@, s.port, s.auth_key@);
        lemma_session_round_trip(s.host@, s.port, s.auth_key@);
    }
    let printed = s.to_shareable_string();
    let printed_str = printed.as_str();
    proof {
        assert(vstd::utf8::is_ascii_chars(printed_str@)) by {
            assert(forall|i: int|
                0 <= i < printed_str@.len() ==> '\0' <= #[trigger] printed_str@[i] <= '\u{7f}');
        }
        vstd::string::is_ascii_spec_bytes(printed_str);
        assert(printed_str.spec_bytes() =~= enc);
    }
    match Session::parse(printed_str) {
        Ok(s2) => {
            proof {
                assert(s2.host@ =~= s.host@);
                assert(s2.auth_key@ =~= s.auth_key@);
                assert(s2.port == s.port);
            }
            let hosts = crate::wire::vecs_equal(&s2.host, &s.host);
            let keys = crate::wire::vecs_equal(&s2.auth_key, &s.auth_key);
            hosts && keys && s2.port == s.port
        },
        Err(_) => {
            proof {
                assert(false);
            }
            false
        },
    }
}

/// Every byte of the shareable form is printable ASCII.
pub proof fn lemma_session_encode_ascii(host: Seq<u8>, port: u16, key: Seq<u8>)
    requires
        spec_host_ok(host),
    ensures
        forall|i: int|
            0 <= i < spec_session_encode(host, port, key).len() ==> #[trigger] spec_session_encode(
                host,
                port,
                key,
            )[i] < 0x80,
{
    let e = spec_session_encode(host, port, key);
    assert forall|i: int| 0 <= i < e.len() implies e[i] < 0x80 by {
        if i < host.len() {
            assert(e[i] == host[i]);
        }
    }
}

} // verus!
