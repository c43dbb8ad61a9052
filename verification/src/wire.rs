//! The wire format: one JSON string document per connection.
//!
//! A request's payload bytes are framed as a single JSON string. The encoder
//! emits an ASCII-only document: a double quote, then each payload byte
//! either literally (printable ASCII) or as one of the escapes `\"`, `\\`,
//! `\u00XY`, then a closing double quote. The decoder accepts exactly that
//! grammar and rejects everything else, so a malformed or hostile client can
//! at worst have its own connection dropped.

use vstd::prelude::*;
use crate::request::ClientRequest;
use crate::request::DaemonRequest;

verus! {

/// The decoding error: the bytes read off a connection are not one
/// well-formed wire document.
#[derive(Debug, Clone, Copy, PartialEq, Eq)]
pub enum WireError {
    Malformed,
}

pub const QUOTE: u8 = 0x22;
pub const BACKSLASH: u8 = 0x5c;
pub const LETTER_U: u8 = 0x75;
pub const DIGIT_ZERO: u8 = 0x30;

/// Bytes that may not appear literally inside the document: the two JSON
/// string delimiters, ASCII control bytes, and everything outside ASCII.
pub open spec fn must_escape(b: u8) -> bool {
    b == QUOTE || b == BACKSLASH || b < 0x20 || b >= 0x7f
}

/// The lowercase ASCII hex digit for a nibble.
pub open spec fn hex_digit(n: u8) -> u8 {
    if n < 10 {
        (0x30 + n) as u8
    } else {
        (0x57 + n) as u8
    }
}

/// Whether `b` is an ASCII digit or lowercase hex letter.
pub open spec fn is_hex(b: u8) -> bool {
    (0x30 <= b && b <= 0x39) || (0x61 <= b && b <= 0x66)
}

/// The nibble value of a hex digit accepted by `is_hex`.
pub open spec fn hex_val(b: u8) -> u8 {
    if b <= 0x39 {
        (b - 0x30) as u8
    } else {
        ((b - 0x61) + 10) as u8
    }
}

/// How one payload byte appears inside the document.
pub open spec fn escape_byte(b: u8) -> Seq<u8> {
    if b == QUOTE {
        seq![BACKSLASH, QUOTE]
    } else if b == BACKSLASH {
        seq![BACKSLASH, BACKSLASH]
    } else if must_escape(b) {
        seq![BACKSLASH, LETTER_U, DIGIT_ZERO, DIGIT_ZERO, hex_digit(b / 16), hex_digit(b % 16)]
    } else {
        seq![b]
    }
}

/// The document body for a payload: each byte escaped, concatenated.
pub open spec fn encode_payload(p: Seq<u8>) -> Seq<u8>
    decreases p.len(),
{
    if p.len() == 0 {
        Seq::empty()
    } else {
        escape_byte(p[0]) + encode_payload(p.skip(1))
    }
}

/// The whole wire document for a payload.
pub open spec fn encode_doc(p: Seq<u8>) -> Seq<u8> {
    seq![QUOTE] + encode_payload(p) + seq![QUOTE]
}

/// The first item inside the string body: the byte it denotes and how many
/// input bytes it takes, or `None` when the input starts with no valid item.
pub open spec fn unescape_step(s: Seq<u8>) -> Option<(u8, int)> {
    if s.len() == 0 {
        None
    } else if s[0] == QUOTE {
        None
    } else if s[0] == BACKSLASH {
        if s.len() >= 2 && s[1] == QUOTE {
            Some((QUOTE, 2))
        } else if s.len() >= 2 && s[1] == BACKSLASH {
            Some((BACKSLASH, 2))
        } else if s.len() >= 6 && s[1] == LETTER_U && s[2] == DIGIT_ZERO && s[3] == DIGIT_ZERO
            && is_hex(s[4]) && is_hex(s[5]) {
            Some(((hex_val(s[4]) * 16 + hex_val(s[5])) as u8, 6))
        } else {
            None
        }
    } else if must_escape(s[0]) {
        None
    } else {
        Some((s[0], 1))
    }
}

/// Decodes the string body (everything after the opening quote): the payload
/// it denotes, or `None` when the body is not a sequence of valid items
/// closed by a final quote with nothing after it.
pub open spec fn decode_body(s: Seq<u8>) -> Option<Seq<u8>>
    decreases s.len(),
{
    if s.len() == 0 {
        None
    } else if s[0] == QUOTE {
        if s.len() == 1 {
            Some(Seq::empty())
        } else {
            None
        }
    } else {
        match unescape_step(s) {
            Some((b, k)) => match decode_body(s.skip(k)) {
                Some(rest) => Some(seq![b] + rest),
                None => None,
            },
            None => None,
        }
    }
}

/// Decodes a whole wire document: the payload it denotes, or `None` when the
/// bytes are not one well-formed document.
pub open spec fn decode_doc(s: Seq<u8>) -> Option<Seq<u8>> {
    if s.len() >= 1 && s[0] == QUOTE {
        decode_body(s.skip(1))
    } else {
        None
    }
}

/// The lowercase ASCII hex digit for a nibble.
fn hex_digit_exec(n: u8) -> (r: u8)
    requires
        n < 16,
    ensures
        r == hex_digit(n),
{
    if n < 10 {
        0x30 + n
    } else {
        0x57 + n
    }
}

/// The nibble value of an accepted hex digit.
fn hex_val_exec(b: u8) -> (r: u8)
    requires
        is_hex(b),
    ensures
        r == hex_val(b),
        r < 16,
{
    if b <= 0x39 {
        b - 0x30
    } else {
        (b - 0x61) + 10
    }
}

/// `encode_payload` grows one escaped byte at a time at the right end.
proof fn lemma_encode_payload_snoc(p: Seq<u8>, b: u8)
    ensures
        encode_payload(p.push(b)) == encode_payload(p) + escape_byte(b),
    decreases p.len(),
{
    if p.len() == 0 {
        assert(p.push(b)[0] == b);
        assert(p.push(b).skip(1) =~= Seq::<u8>::empty());
        assert(encode_payload(p.push(b)) == escape_byte(b) + encode_payload(Seq::<u8>::empty()));
        assert(escape_byte(b) + Seq::<u8>::empty() =~= escape_byte(b));
        assert(encode_payload(p) + escape_byte(b) =~= escape_byte(b));
    } else {
        lemma_encode_payload_snoc(p.skip(1), b);
        assert(p.push(b).skip(1) =~= p.skip(1).push(b));
        assert(p.push(b)[0] == p[0]);
        assert(encode_payload(p.push(b)) == escape_byte(p[0]) + encode_payload(p.skip(1).push(b)));
        assert(escape_byte(p[0]) + (encode_payload(p.skip(1)) + escape_byte(b)) =~= (escape_byte(
            p[0],
        ) + encode_payload(p.skip(1))) + escape_byte(b));
    }
}

/// Serializes a daemon-origin request into the wire document its payload
/// denotes.
pub fn encode_request(req: &DaemonRequest) -> (r: Vec<u8>)
    ensures
        r@ == encode_doc(req.payload@),
{
    let mut out: Vec<u8> = Vec::new();
    out.push(QUOTE);
    let n = req.payload.len();
    let mut i: usize = 0;
    while i < n
        invariant
            i <= n,
            n == req.payload.len(),
            out@ == seq![QUOTE] + encode_payload(req.payload@.take(i as int)),
        decreases n - i,
    {
        let b = req.payload[i];
        if b == QUOTE {
            out.push(BACKSLASH);
            out.push(QUOTE);
        } else if b == BACKSLASH {
            out.push(BACKSLASH);
            out.push(BACKSLASH);
        } else if b < 0x20 || b >= 0x7f {
            out.push(BACKSLASH);
            out.push(LETTER_U);
            out.push(DIGIT_ZERO);
            out.push(DIGIT_ZERO);
            out.push(hex_digit_exec(b / 16));
            out.push(hex_digit_exec(b % 16));
        } else {
            out.push(b);
        }
        proof {
            lemma_encode_payload_snoc(req.payload@.take(i as int), b);
            assert(req.payload@.take(i as int).push(b) =~= req.payload@.take(i + 1));
            assert(out@ =~= seq![QUOTE] + encode_payload(req.payload@.take(i + 1)));
        }
        i = i + 1;
    }
    out.push(QUOTE);
    proof {
        assert(req.payload@.take(n as int) =~= req.payload@);
        assert(out@ =~= encode_doc(req.payload@));
    }
    out
}

/// One valid item at the head of a string body determines the body's
/// decoding: the item's byte followed by the decoding of what remains.
proof fn lemma_decode_body_step(s: Seq<u8>, b: u8, k: int)
    requires
        s.len() > 0,
        s[0] != QUOTE,
        unescape_step(s) == Some((b, k)),
    ensures
        1 <= k <= s.len(),
        decode_body(s) is Some ==> decode_body(s.skip(k)) is Some,
        decode_body(s.skip(k)) matches Some(rest) ==> decode_body(s) == Some(seq![b] + rest),
        decode_body(s.skip(k)) is None ==> decode_body(s) is None,
{
}

/// A nibble's hex digit is accepted back and denotes the nibble.
proof fn lemma_hex_digit_val(n: u8)
    requires
        n < 16,
    ensures
        is_hex(hex_digit(n)),
        hex_val(hex_digit(n)) == n,
{
}

/// Parses the bytes read off one connection as a wire document. Returns the
/// daemon-origin request the document denotes, or an error exactly when the
/// bytes are not one well-formed document.
pub fn decode_request(bytes: &Vec<u8>) -> (r: Result<DaemonRequest, WireError>)
    ensures
        match r {
            Ok(req) => decode_doc(bytes@) == Some(req.payload@),
            Err(e) => decode_doc(bytes@) is None && e == WireError::Malformed,
        },
{
    let n = bytes.len();
    if n == 0 || bytes[0] != QUOTE {
        return Err(WireError::Malformed);
    }
    let mut out: Vec<u8> = Vec::new();
    let mut i: usize = 1;
    loop
        invariant
            1 <= i <= n,
            n == bytes.len(),
            bytes@[0] == QUOTE,
            decode_body(bytes@.skip(i as int)) is Some ==> decode_body(bytes@.skip(1)) == Some(
                out@ + decode_body(bytes@.skip(i as int)).unwrap(),
            ),
            decode_body(bytes@.skip(i as int)) is None ==> decode_body(bytes@.skip(1)) is None,
        decreases n - i,
    {
        let ghost s = bytes@.skip(i as int);
        if i == n {
            assert(s.len() == 0);
            return Err(WireError::Malformed);
        }
        assert(s[0] == bytes@[i as int]);
        let b = bytes[i];
        if b == QUOTE {
            if i + 1 == n {
                assert(s.len() == 1);
                assert(decode_body(s) == Some(Seq::<u8>::empty()));
                assert(out@ + Seq::<u8>::empty() =~= out@);
                return Ok(DaemonRequest { payload: out });
            } else {
                assert(s.len() > 1);
                assert(decode_body(s) is None);
                return Err(WireError::Malformed);
            }
        } else if b == BACKSLASH {
            if i + 1 == n {
                assert(unescape_step(s) is None);
                assert(decode_body(s) is None);
                return Err(WireError::Malformed);
            }
            assert(s[1] == bytes@[i + 1]);
            let e = bytes[i + 1];
            if e == QUOTE || e == BACKSLASH {
                proof {
                    assert(unescape_step(s) == Some((e, 2int)));
                    lemma_decode_body_step(s, e, 2);
                    assert(bytes@.skip(i as int).skip(2) =~= bytes@.skip(i + 2));
                }
                out.push(e);
                proof {
                    if decode_body(bytes@.skip(i + 2)) is Some {
                        let rest = decode_body(bytes@.skip(i + 2)).unwrap();
                        assert(decode_body(s) == Some(seq![e] + rest));
                        assert(out@ + rest =~= (out@.drop_last() + (seq![e] + rest)));
                    }
                }
                i = i + 2;
            } else if e == LETTER_U {
                if n - i < 6 {
                    assert(s.len() < 6);
                    assert(unescape_step(s) is None);
                    assert(decode_body(s) is None);
                    return Err(WireError::Malformed);
                }
                assert(s[2] == bytes@[i + 2]);
                assert(s[3] == bytes@[i + 3]);
                assert(s[4] == bytes@[i + 4]);
                assert(s[5] == bytes@[i + 5]);
                let d2 = bytes[i + 2];
                let d3 = bytes[i + 3];
                let d4 = bytes[i + 4];
                let d5 = bytes[i + 5];
                let hex4 = (0x30 <= d4 && d4 <= 0x39) || (0x61 <= d4 && d4 <= 0x66);
                let hex5 = (0x30 <= d5 && d5 <= 0x39) || (0x61 <= d5 && d5 <= 0x66);
                if d2 != DIGIT_ZERO || d3 != DIGIT_ZERO || !hex4 || !hex5 {
                    assert(unescape_step(s) is None);
                    assert(decode_body(s) is None);
                    return Err(WireError::Malformed);
                }
                let v = hex_val_exec(d4) * 16 + hex_val_exec(d5);
                proof {
                    assert(unescape_step(s) == Some((v, 6int)));
                    lemma_decode_body_step(s, v, 6);
                    assert(bytes@.skip(i as int).skip(6) =~= bytes@.skip(i + 6));
                }
                out.push(v);
                proof {
                    if decode_body(bytes@.skip(i + 6)) is Some {
                        let rest = decode_body(bytes@.skip(i + 6)).unwrap();
                        assert(decode_body(s) == Some(seq![v] + rest));
                        assert(out@ + rest =~= (out@.drop_last() + (seq![v] + rest)));
                    }
                }
                i = i + 6;
            } else {
                assert(unescape_step(s) is None);
                assert(decode_body(s) is None);
                return Err(WireError::Malformed);
            }
        } else if b < 0x20 || b >= 0x7f {
            assert(must_escape(s[0]));
            assert(unescape_step(s) is None);
            assert(decode_body(s) is None);
            return Err(WireError::Malformed);
        } else {
            proof {
                assert(!must_escape(s[0]));
                assert(unescape_step(s) == Some((b, 1int)));
                lemma_decode_body_step(s, b, 1);
                assert(bytes@.skip(i as int).skip(1) =~= bytes@.skip(i + 1));
            }
            out.push(b);
            proof {
                if decode_body(bytes@.skip(i + 1)) is Some {
                    let rest = decode_body(bytes@.skip(i + 1)).unwrap();
                    assert(decode_body(s) == Some(seq![b] + rest));
                    assert(out@ + rest =~= (out@.drop_last() + (seq![b] + rest)));
                }
            }
            i = i + 1;
        }
    }
}

/// The sender's whole compute step: reinterprets a client-origin request
/// into the daemon-origin tag — the only sanctioned conversion — and
/// serializes it for the wire. What remains for the sender is transport:
/// connect, write, close, without waiting for a reply.
pub fn encode_client_request(req: ClientRequest) -> (r: Vec<u8>)
    ensures
        r@ == encode_doc(req.payload@),
{
    let daemon_req = req.reinterpret();
    encode_request(&daemon_req)
}

/// The head item of an escaped byte followed by anything decodes back to
/// that byte, consuming exactly the escape.
proof fn lemma_unescape_escape(b: u8, rest: Seq<u8>)
    ensures
        unescape_step(escape_byte(b) + rest) == Some((b, escape_byte(b).len() as int)),
{
    let s = escape_byte(b) + rest;
    if b == QUOTE {
        assert(s.len() >= 2 && s[0] == BACKSLASH && s[1] == QUOTE);
    } else if b == BACKSLASH {
        assert(s.len() >= 2 && s[0] == BACKSLASH && s[1] == BACKSLASH);
    } else if must_escape(b) {
        assert(b / 16 < 16 && b % 16 < 16) by (bit_vector);
        lemma_hex_digit_val(b / 16);
        lemma_hex_digit_val(b % 16);
        assert(s.len() >= 6);
        assert(s[0] == BACKSLASH && s[1] == LETTER_U && s[2] == DIGIT_ZERO && s[3] == DIGIT_ZERO);
        assert(s[4] == hex_digit(b / 16) && s[5] == hex_digit(b % 16));
        assert(hex_val(s[4]) == b / 16 && hex_val(s[5]) == b % 16);
        assert((b / 16) * 16 + b % 16 == b) by (bit_vector);
        assert(unescape_step(s) == Some((b, 6int)));
    } else {
        assert(s[0] == b);
        assert(unescape_step(s) == Some((b, 1int)));
    }
}

/// The body an encoder produced, closed by its final quote, decodes back to
/// the payload it was produced from.
proof fn lemma_decode_encode_body(p: Seq<u8>)
    ensures
        decode_body(encode_payload(p) + seq![QUOTE]) == Some(p),
    decreases p.len(),
{
    if p.len() == 0 {
        assert(encode_payload(p) + seq![QUOTE] =~= seq![QUOTE]);
        assert(decode_body(seq![QUOTE]) == Some(Seq::<u8>::empty()));
        assert(p =~= Seq::<u8>::empty());
    } else {
        let s = encode_payload(p) + seq![QUOTE];
        let tail = encode_payload(p.skip(1)) + seq![QUOTE];
        assert(s =~= escape_byte(p[0]) + tail);
        lemma_unescape_escape(p[0], tail);
        let k = escape_byte(p[0]).len() as int;
        assert(s[0] == escape_byte(p[0])[0]);
        assert(s[0] != QUOTE);
        assert(s.skip(k) =~= tail);
        lemma_decode_encode_body(p.skip(1));
        lemma_decode_body_step(s, p[0], k);
        assert(decode_body(s) == Some(seq![p[0]] + p.skip(1)));
        assert(seq![p[0]] + p.skip(1) =~= p);
    }
}

/// Wire round trip: the document encoded from any payload decodes back to
/// exactly that payload. Since reinterpreting a client-origin request keeps
/// its payload unchanged, a request tagged by a client, reinterpreted by the
/// sender, framed, and parsed on the daemon side carries equal payload
/// bytes.
pub proof fn lemma_wire_round_trip(p: Seq<u8>)
    ensures
        decode_doc(encode_doc(p)) == Some(p),
{
    assert(encode_doc(p)[0] == QUOTE);
    assert(encode_doc(p).skip(1) =~= encode_payload(p) + seq![QUOTE]);
    lemma_decode_encode_body(p);
}

/// A request constructed with the client-origin tag, reinterpreted and
/// framed by the sender, parses on the daemon side to a payload equal to the
/// original; the provenance tag carries no data, so it takes no part in that
/// equality.
pub proof fn lemma_sender_round_trip(req: ClientRequest)
    ensures
        decode_doc(encode_doc(req.payload@)) == Some(req.payload@),
{
    lemma_wire_round_trip(req.payload@);
}

} // verus!
