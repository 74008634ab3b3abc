//! Deterministic binary codec for the two wire messages.
//!
//! An agent request or response is framed as a tagged record: a one-byte tag,
//! then each field as a four-byte big-endian length followed by that many
//! bytes.  There is no version field; compatibility between nodes rests on
//! the protocol-version string the identify sub-protocol advertises.  Field
//! contents are opaque byte strings; agent names and messages travel as their
//! UTF-8 bytes.

use vstd::arithmetic::div_mod::{
    lemma_breakdown, lemma_div_multiples_vanish_fancy, lemma_multiply_divide_lt, lemma_small_mod,
};
use vstd::prelude::*;

verus! {

/// Tag byte that opens an encoded agent request.
pub const REQUEST_TAG: u8 = 1;

/// Tag byte that opens an encoded agent response.
pub const RESPONSE_TAG: u8 = 2;

/// Largest field length the four-byte length prefix can carry.
pub const MAX_FIELD_LEN: u64 = 0xFFFF_FFFF;

/// What can go wrong when framing or parsing a wire message.
#[derive(Debug, Clone, Copy, PartialEq, Eq, Structural)]
pub enum ProtocolError {
    /// The bytes are not exactly one well-formed tagged record.
    InvalidFormat,
    /// A field is too long for the four-byte length prefix.
    Oversize,
}

/// A wire message, fields as raw bytes.
#[derive(Debug, Clone, PartialEq, Eq)]
pub enum WireMessage {
    /// An agent request: the agent's name and the message for it.
    Request { agent_name: Vec<u8>, message: Vec<u8> },
    /// An agent response: an opaque body.
    Response { body: Vec<u8> },
}

/// The four big-endian bytes of `n`.
pub open spec fn be32(n: u32) -> Seq<u8> {
    seq![
        (n / 0x1000000) as u8,
        ((n / 0x10000) % 0x100) as u8,
        ((n / 0x100) % 0x100) as u8,
        (n % 0x100) as u8,
    ]
}

/// The value of four big-endian bytes.
pub open spec fn be32_val(s: Seq<u8>) -> int
    recommends
        s.len() == 4,
{
    s[0] * 0x1000000 + s[1] * 0x10000 + s[2] * 0x100 + s[3]
}

/// Reading back the four big-endian bytes of `n` gives `n`.
pub proof fn lemma_be32_round_trip(n: u32)
    ensures
        be32(n).len() == 4,
        be32_val(be32(n)) == n,
{
    let x = n as int;
    lemma_multiply_divide_lt(x, 0x1000000, 0x100);
    lemma_small_mod((x / 0x1000000) as nat, 0x100);
    lemma_small_mod(x as nat, 0x100000000);
    lemma_breakdown(x, 0x1000000, 0x100);
    lemma_breakdown(x, 0x10000, 0x100);
    lemma_breakdown(x, 0x100, 0x100);
}

/// Four bytes are the big-endian bytes of their own value.
pub proof fn lemma_be32_inverse(s: Seq<u8>)
    requires
        s.len() == 4,
    ensures
        0 <= be32_val(s) < 0x100000000,
        be32(be32_val(s) as u32) =~= s,
{
    let b0 = s[0] as int;
    let b1 = s[1] as int;
    let b2 = s[2] as int;
    let b3 = s[3] as int;
    let x = be32_val(s);
    let n = x as u32;
    assert(x == 0x1000000 * b0 + (0x10000 * b1 + 0x100 * b2 + b3));
    lemma_div_multiples_vanish_fancy(b0, 0x10000 * b1 + 0x100 * b2 + b3, 0x1000000);
    assert(n / 0x1000000 == b0);
    assert(x == 0x10000 * (0x100 * b0 + b1) + (0x100 * b2 + b3));
    lemma_div_multiples_vanish_fancy(0x100 * b0 + b1, 0x100 * b2 + b3, 0x10000);
    assert(n / 0x10000 == 0x100 * b0 + b1);
    lemma_div_multiples_vanish_fancy(b0, b1, 0x100);
    lemma_breakdown(0x100 * b0 + b1, 1, 0x100);
    assert((0x100 * b0 + b1) % 0x100 == b1) by {
        lemma_small_mod(b1 as nat, 0x100);
        vstd::arithmetic::div_mod::lemma_mod_multiples_vanish(b0, b1, 0x100);
    }
    assert(x == 0x100 * (0x10000 * b0 + 0x100 * b1 + b2) + b3);
    lemma_div_multiples_vanish_fancy(0x10000 * b0 + 0x100 * b1 + b2, b3, 0x100);
    assert(n / 0x100 == 0x10000 * b0 + 0x100 * b1 + b2);
    assert((0x10000 * b0 + 0x100 * b1 + b2) % 0x100 == b2) by {
        lemma_small_mod(b2 as nat, 0x100);
        vstd::arithmetic::div_mod::lemma_mod_multiples_vanish(
            0x100 * b0 + b1,
            b2,
            0x100,
        );
    }
    assert(n % 0x100 == b3) by {
        lemma_small_mod(b3 as nat, 0x100);
        vstd::arithmetic::div_mod::lemma_mod_multiples_vanish(
            0x10000 * b0 + 0x100 * b1 + b2,
            b3,
            0x100,
        );
    }
}

/// Whether the message's fields fit the four-byte length prefixes.
pub open spec fn encodable(m: WireMessage) -> bool {
    match m {
        WireMessage::Request { agent_name, message } => agent_name@.len() <= MAX_FIELD_LEN
            && message@.len() <= MAX_FIELD_LEN,
        WireMessage::Response { body } => body@.len() <= MAX_FIELD_LEN,
    }
}

/// The exact bytes a message is framed as.
pub open spec fn spec_serialize(m: WireMessage) -> Seq<u8> {
    match m {
        WireMessage::Request { agent_name, message } => seq![REQUEST_TAG] + be32(
            agent_name@.len() as u32,
        ) + agent_name@ + be32(message@.len() as u32) + message@,
        WireMessage::Response { body } => seq![RESPONSE_TAG] + be32(body@.len() as u32) + body@,
    }
}

/// Whether `s` is exactly one well-formed tagged record.
pub open spec fn valid_encoding(s: Seq<u8>) -> bool {
    if s.len() < 1 {
        false
    } else if s[0] == REQUEST_TAG {
        s.len() >= 9 && {
            let nl = be32_val(s.subrange(1, 5));
            s.len() >= 9 + nl && {
                let ml = be32_val(s.subrange(5 + nl, 9 + nl));
                s.len() == 9 + nl + ml
            }
        }
    } else if s[0] == RESPONSE_TAG {
        s.len() == 5 + be32_val(s.subrange(1, 5))
    } else {
        false
    }
}

/// Append the four big-endian bytes of `n`.
fn push_be32(out: &mut Vec<u8>, n: u32)
    ensures
        final(out)@ =~= old(out)@ + be32(n),
{
    out.push((n / 0x1000000) as u8);
    out.push(((n / 0x10000) % 0x100) as u8);
    out.push(((n / 0x100) % 0x100) as u8);
    out.push((n % 0x100) as u8);
}

/// Append all of `data`.
fn push_bytes(out: &mut Vec<u8>, data: &Vec<u8>)
    ensures
        final(out)@ =~= old(out)@ + data@,
{
    let n = data.len();
    let mut i: usize = 0;
    while i < n
        invariant
            0 <= i <= n,
            n == data@.len(),
            out@ =~= old(out)@ + data@.subrange(0, i as int),
        decreases n - i,
    {
        out.push(data[i]);
        proof {
            assert(old(out)@ + data@.subrange(0, i + 1) =~= (old(out)@ + data@.subrange(
                0,
                i as int,
            )).push(data@[i as int]));
        }
        i = i + 1;
    }
    proof {
        assert(data@.subrange(0, n as int) =~= data@);
    }
}

/// Frame a wire message as its tagged-record bytes.
///
/// Succeeds exactly when every field fits its length prefix; the bytes are
/// then the unique encoding of the message.
pub fn serialize_message(msg: &WireMessage) -> (r: Result<Vec<u8>, ProtocolError>)
    ensures
        match r {
            Ok(bytes) => encodable(*msg) && bytes@ =~= spec_serialize(*msg),
            Err(e) => e == ProtocolError::Oversize && !encodable(*msg),
        },
{
    match msg {
        WireMessage::Request { agent_name, message } => {
            if (agent_name.len() as u64) > MAX_FIELD_LEN || (message.len() as u64) > MAX_FIELD_LEN {
                return Err(ProtocolError::Oversize);
            }
            let mut out: Vec<u8> = Vec::new();
            out.push(REQUEST_TAG);
            push_be32(&mut out, agent_name.len() as u32);
            push_bytes(&mut out, agent_name);
            push_be32(&mut out, message.len() as u32);
            push_bytes(&mut out, message);
            Ok(out)
        },
        WireMessage::Response { body } => {
            if (body.len() as u64) > MAX_FIELD_LEN {
                return Err(ProtocolError::Oversize);
            }
            let mut out: Vec<u8> = Vec::new();
            out.push(RESPONSE_TAG);
            push_be32(&mut out, body.len() as u32);
            push_bytes(&mut out, body);
            Ok(out)
        },
    }
}

/// Read the big-endian value at `off`.
fn read_be32(bytes: &Vec<u8>, off: usize) -> (r: u32)
    requires
        off + 4 <= bytes@.len(),
        bytes@.len() <= usize::MAX,
    ensures
        r == be32_val(bytes@.subrange(off as int, off as int + 4)),
{
    let r = (bytes[off] as u32) * 0x1000000 + (bytes[off + 1] as u32) * 0x10000 + (bytes[off + 2]
        as u32) * 0x100 + (bytes[off + 3] as u32);
    proof {
        let s = bytes@.subrange(off as int, off as int + 4);
        assert(s[0] == bytes@[off as int] && s[1] == bytes@[off as int + 1] && s[2] == bytes@[off
            as int + 2] && s[3] == bytes@[off as int + 3]);
    }
    r
}

/// Copy `len` bytes starting at `start`.
fn copy_range(bytes: &Vec<u8>, start: usize, len: usize) -> (r: Vec<u8>)
    requires
        start + len <= bytes@.len(),
        bytes@.len() <= usize::MAX,
    ensures
        r@ =~= bytes@.subrange(start as int, start as int + len as int),
{
    let mut r: Vec<u8> = Vec::new();
    let mut i: usize = 0;
    while i < len
        invariant
            0 <= i <= len,
            start + len <= bytes@.len(),
            bytes@.len() <= usize::MAX,
            r@ =~= bytes@.subrange(start as int, start as int + i as int),
        decreases len - i,
    {
        r.push(bytes[start + i]);
        proof {
            assert(bytes@.subrange(start as int, start as int + i + 1) =~= bytes@.subrange(
                start as int,
                start as int + i as int,
            ).push(bytes@[start as int + i as int]));
        }
        i = i + 1;
    }
    r
}

/// Parse bytes as exactly one wire message.
///
/// Succeeds exactly when the bytes are one well-formed tagged record, and
/// then returns the one message those bytes encode.
pub fn deserialize_message(bytes: &Vec<u8>) -> (r: Result<WireMessage, ProtocolError>)
    ensures
        match r {
            Ok(m) => encodable(m) && spec_serialize(m) =~= bytes@ && valid_encoding(bytes@),
            Err(e) => e == ProtocolError::InvalidFormat && !valid_encoding(bytes@),
        },
{
    let n = bytes.len();
    if n < 1 {
        return Err(ProtocolError::InvalidFormat);
    }
    let tag = bytes[0];
    if tag == REQUEST_TAG {
        if n < 9 {
            return Err(ProtocolError::InvalidFormat);
        }
        let nl = read_be32(bytes, 1);
        proof {
            lemma_be32_inverse(bytes@.subrange(1, 5));
        }
        if ((n - 9) as u64) < (nl as u64) {
            return Err(ProtocolError::InvalidFormat);
        }
        let nl_us = nl as usize;
        let ml = read_be32(bytes, 5 + nl_us);
        proof {
            lemma_be32_inverse(bytes@.subrange(5 + nl_us as int, 9 + nl_us as int));
        }
        if (((n - 9) - nl_us) as u64) != (ml as u64) {
            return Err(ProtocolError::InvalidFormat);
        }
        let ml_us = ml as usize;
        let agent_name = copy_range(bytes, 5, nl_us);
        let message = copy_range(bytes, 9 + nl_us, ml_us);
        let m = WireMessage::Request { agent_name, message };
        proof {
            assert(spec_serialize(m) =~= bytes@);
        }
        Ok(m)
    } else if tag == RESPONSE_TAG {
        if n < 5 {
            return Err(ProtocolError::InvalidFormat);
        }
        let bl = read_be32(bytes, 1);
        proof {
            lemma_be32_inverse(bytes@.subrange(1, 5));
        }
        if ((n - 5) as u64) != (bl as u64) {
            return Err(ProtocolError::InvalidFormat);
        }
        let bl_us = bl as usize;
        let body = copy_range(bytes, 5, bl_us);
        let m = WireMessage::Response { body };
        proof {
            assert(spec_serialize(m) =~= bytes@);
        }
        Ok(m)
    } else {
        Err(ProtocolError::InvalidFormat)
    }
}

/// Every well-formed message's encoding is itself well-formed, so a message
/// framed by one node parses on another.
pub proof fn lemma_serialize_valid(m: WireMessage)
    requires
        encodable(m),
    ensures
        valid_encoding(spec_serialize(m)),
{
    match m {
        WireMessage::Request { agent_name, message } => {
            let s = spec_serialize(m);
            lemma_be32_round_trip(agent_name@.len() as u32);
            lemma_be32_round_trip(message@.len() as u32);
            assert(s.subrange(1, 5) =~= be32(agent_name@.len() as u32));
            assert(s.subrange(
                5 + agent_name@.len() as int,
                9 + agent_name@.len() as int,
            ) =~= be32(message@.len() as u32));
        },
        WireMessage::Response { body } => {
            let s = spec_serialize(m);
            lemma_be32_round_trip(body@.len() as u32);
            assert(s.subrange(1, 5) =~= be32(body@.len() as u32));
        },
    }
}

/// No two well-formed messages share an encoding: the codec round-trips.
pub proof fn lemma_serialize_injective(m1: WireMessage, m2: WireMessage)
    requires
        encodable(m1),
        encodable(m2),
        spec_serialize(m1) == spec_serialize(m2),
    ensures
        match (m1, m2) {
            (
                WireMessage::Request { agent_name: a1, message: g1 },
                WireMessage::Request { agent_name: a2, message: g2 },
            ) => a1@ == a2@ && g1@ == g2@,
            (
                WireMessage::Response { body: b1 },
                WireMessage::Response { body: b2 },
            ) => b1@ == b2@,
            _ => false,
        },
{
    let s = spec_serialize(m1);
    match (m1, m2) {
        (
            WireMessage::Request { agent_name: a1, message: g1 },
            WireMessage::Request { agent_name: a2, message: g2 },
        ) => {
            lemma_be32_round_trip(a1@.len() as u32);
            lemma_be32_round_trip(a2@.len() as u32);
            assert(spec_serialize(m1).subrange(1, 5) =~= be32(a1@.len() as u32));
            assert(spec_serialize(m2).subrange(1, 5) =~= be32(a2@.len() as u32));
            assert(a1@.len() == a2@.len());
            assert(a1@ =~= spec_serialize(m1).subrange(5, 5 + a1@.len() as int));
            assert(a2@ =~= spec_serialize(m2).subrange(5, 5 + a2@.len() as int));
            assert(g1@ =~= spec_serialize(m1).subrange(
                9 + a1@.len() as int,
                spec_serialize(m1).len() as int,
            ));
            assert(g2@ =~= spec_serialize(m2).subrange(
                9 + a2@.len() as int,
                spec_serialize(m2).len() as int,
            ));
        },
        (WireMessage::Response { body: b1 }, WireMessage::Response { body: b2 }) => {
            assert(b1@ =~= s.subrange(5, s.len() as int));
            assert(b2@ =~= spec_serialize(m2).subrange(5, spec_serialize(m2).len() as int));
        },
        (WireMessage::Request { .. }, WireMessage::Response { .. }) => {
            assert(s[0] == REQUEST_TAG && spec_serialize(m2)[0] == RESPONSE_TAG);
        },
        (WireMessage::Response { .. }, WireMessage::Request { .. }) => {
            assert(s[0] == RESPONSE_TAG && spec_serialize(m2)[0] == REQUEST_TAG);
        },
    }
}

} // verus!
