//! Gossip message identity.
//!
//! A published message is identified by the textual decimal form of a 64-bit
//! non-cryptographic hash of its payload bytes.  The hash must be a specified
//! function so that every participant derives the same id from the same
//! bytes; the 64-bit FNV-1a function is used, folding bytes left to right.
//! Receivers use the id to suppress duplicate deliveries.

use vstd::prelude::*;

verus! {

/// FNV-1a 64-bit offset basis.
pub const FNV_OFFSET: u64 = 0xcbf2_9ce4_8422_2325;

/// FNV-1a 64-bit prime.
pub const FNV_PRIME: u64 = 0x100_0000_01b3;

/// One FNV-1a round: fold the byte in, then multiply modulo 2^64.
pub open spec fn fnv1a64_step(h: u64, b: u8) -> u64 {
    (((h ^ (b as u64)) * FNV_PRIME) % 0x1_0000_0000_0000_0000) as u64
}

/// FNV-1a folded over `data`, starting from state `h`.
pub open spec fn fnv1a64_from(h: u64, data: Seq<u8>) -> u64
    decreases data.len(),
{
    if data.len() == 0 {
        h
    } else {
        fnv1a64_from(fnv1a64_step(h, data.first()), data.drop_first())
    }
}

/// The 64-bit FNV-1a hash of `data`.
pub open spec fn fnv1a64(data: Seq<u8>) -> u64 {
    fnv1a64_from(FNV_OFFSET, data)
}

/// The ASCII decimal digits of `n`, most significant first, no sign and no
/// leading zero (the single digit `0` for zero).
pub open spec fn decimal_bytes(n: nat) -> Seq<u8>
    decreases n,
{
    if n < 10 {
        seq![(48 + n) as u8]
    } else {
        decimal_bytes(n / 10).push((48 + n % 10) as u8)
    }
}

/// The message id of a payload: the decimal form of its 64-bit hash.
pub open spec fn spec_message_id(data: Seq<u8>) -> Seq<u8> {
    decimal_bytes(fnv1a64(data) as nat)
}

/// Decimal renderings hold only ASCII digits and never start with a padding
/// zero.
pub proof fn lemma_decimal_bytes_digits(n: nat)
    ensures
        decimal_bytes(n).len() >= 1,
        forall|i: int| 0 <= i < decimal_bytes(n).len() ==> 48 <= #[trigger] decimal_bytes(n)[i]
            <= 57,
        n >= 1 ==> decimal_bytes(n)[0] != 48,
    decreases n,
{
    if n >= 10 {
        lemma_decimal_bytes_digits(n / 10);
    }
}

/// Compute the 64-bit FNV-1a hash of the payload.
pub fn hash_payload(data: &Vec<u8>) -> (r: u64)
    ensures
        r == fnv1a64(data@),
{
    let n = data.len();
    let mut h: u64 = FNV_OFFSET;
    let mut i: usize = 0;
    proof {
        assert(data@.skip(0) =~= data@);
    }
    while i < n
        invariant
            0 <= i <= n,
            n == data@.len(),
            fnv1a64_from(h, data@.skip(i as int)) == fnv1a64(data@),
        decreases n - i,
    {
        proof {
            assert(data@.skip(i as int).first() == data@[i as int]);
            assert(data@.skip(i as int).drop_first() =~= data@.skip(i + 1));
        }
        h = (h ^ (data[i] as u64)).wrapping_mul(FNV_PRIME);
        i = i + 1;
    }
    proof {
        assert(data@.skip(n as int) =~= Seq::<u8>::empty());
    }
    h
}

/// Render `n` as its ASCII decimal digits.
pub fn decimal_digits(n: u64) -> (r: Vec<u8>)
    ensures
        r@ =~= decimal_bytes(n as nat),
    decreases n,
{
    if n < 10 {
        let mut v: Vec<u8> = Vec::new();
        v.push(48 + n as u8);
        v
    } else {
        let mut v = decimal_digits(n / 10);
        v.push(48 + (n % 10) as u8);
        v
    }
}

/// The id under which a gossip payload travels: the decimal form of its
/// 64-bit hash, as ASCII bytes.
pub fn gossip_message_id(payload: &Vec<u8>) -> (r: Vec<u8>)
    ensures
        r@ =~= spec_message_id(payload@),
{
    let h = hash_payload(payload);
    decimal_digits(h)
}

} // verus!
