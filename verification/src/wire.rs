//! The wire format: all integers big-endian. A handshake public value is 8
//! raw bytes; a chat message travels as an envelope of a 4-byte length header
//! followed by exactly that many ciphertext bytes.

use vstd::prelude::*;

verus! {

/// The 4-byte big-endian encoding of a 32-bit value.
pub open spec fn spec_u32_be(x: u32) -> Seq<u8> {
    seq![(x >> 24) as u8, (x >> 16) as u8, (x >> 8) as u8, x as u8]
}

/// The 32-bit value read from 4 big-endian bytes.
pub open spec fn spec_u32_from_be(b: Seq<u8>) -> u32
    recommends
        b.len() == 4,
{
    ((b[0] as u32) << 24) | ((b[1] as u32) << 16) | ((b[2] as u32) << 8) | (b[3] as u32)
}

/// The 8-byte big-endian encoding of a 64-bit value.
pub open spec fn spec_u64_be(x: u64) -> Seq<u8> {
    seq![
        (x >> 56) as u8,
        (x >> 48) as u8,
        (x >> 40) as u8,
        (x >> 32) as u8,
        (x >> 24) as u8,
        (x >> 16) as u8,
        (x >> 8) as u8,
        x as u8,
    ]
}

/// The 64-bit value read from 8 big-endian bytes.
pub open spec fn spec_u64_from_be(b: Seq<u8>) -> u64
    recommends
        b.len() == 8,
{
    ((b[0] as u64) << 56) | ((b[1] as u64) << 48) | ((b[2] as u64) << 40) | ((b[3] as u64) << 32)
        | ((b[4] as u64) << 24) | ((b[5] as u64) << 16) | ((b[6] as u64) << 8) | (b[7] as u64)
}

/// The envelope that frames one chat message: a 4-byte big-endian length,
/// then exactly that many ciphertext bytes. A zero-length envelope is valid.
pub open spec fn spec_envelope(ciphertext: Seq<u8>) -> Seq<u8>
    recommends
        ciphertext.len() <= u32::MAX,
{
    spec_u32_be(ciphertext.len() as u32) + ciphertext
}

/// Law: reading back the 4 big-endian bytes of a 32-bit value returns it.
pub proof fn lemma_u32_be_round_trip(x: u32)
    ensures
        spec_u32_from_be(spec_u32_be(x)) == x,
{
    assert((((x >> 24) as u8 as u32) << 24) | (((x >> 16) as u8 as u32) << 16) | (((x
        >> 8) as u8 as u32) << 8) | (x as u8 as u32) == x) by (bit_vector);
}

/// Law: encoding the 32-bit value read from 4 bytes returns those bytes, so
/// the 4-byte big-endian form is in exact correspondence with `u32`.
pub proof fn lemma_u32_be_inverse(b: Seq<u8>)
    requires
        b.len() == 4,
    ensures
        spec_u32_be(spec_u32_from_be(b)) == b,
{
    let b0 = b[0];
    let b1 = b[1];
    let b2 = b[2];
    let b3 = b[3];
    let x = spec_u32_from_be(b);
    assert(x == ((b0 as u32) << 24) | ((b1 as u32) << 16) | ((b2 as u32) << 8) | (b3 as u32));
    assert(((((((b0 as u32) << 24) | ((b1 as u32) << 16) | ((b2 as u32) << 8) | (b3 as u32)) >> 24)
        as u8) == b0) && ((((((b0 as u32) << 24) | ((b1 as u32) << 16) | ((b2 as u32) << 8) | (
    b3 as u32)) >> 16) as u8) == b1) && ((((((b0 as u32) << 24) | ((b1 as u32) << 16) | ((
    b2 as u32) << 8) | (b3 as u32)) >> 8) as u8) == b2) && (((((b0 as u32) << 24) | ((b1 as u32)
        << 16) | ((b2 as u32) << 8) | (b3 as u32)) as u8) == b3)) by (bit_vector);
    assert(spec_u32_be(x) =~= b);
}

/// Law: reading back the 8 big-endian bytes of a 64-bit value returns it.
pub proof fn lemma_u64_be_round_trip(x: u64)
    ensures
        spec_u64_from_be(spec_u64_be(x)) == x,
{
    assert((((x >> 56) as u8 as u64) << 56) | (((x >> 48) as u8 as u64) << 48) | (((x
        >> 40) as u8 as u64) << 40) | (((x >> 32) as u8 as u64) << 32) | (((x
        >> 24) as u8 as u64) << 24) | (((x >> 16) as u8 as u64) << 16) | (((x
        >> 8) as u8 as u64) << 8) | (x as u8 as u64) == x) by (bit_vector);
}

/// Big-endian bytes of a 32-bit length, most significant first.
pub fn u32_to_be_bytes(x: u32) -> (out: Vec<u8>)
    ensures
        out@ == spec_u32_be(x),
{
    let mut out: Vec<u8> = Vec::new();
    out.push((x >> 24) as u8);
    out.push((x >> 16) as u8);
    out.push((x >> 8) as u8);
    out.push(x as u8);
    proof {
        assert(out@ =~= spec_u32_be(x));
    }
    out
}

/// The 32-bit value carried by a 4-byte big-endian header.
pub fn u32_from_be_bytes(b: &[u8]) -> (x: u32)
    requires
        b@.len() == 4,
    ensures
        x == spec_u32_from_be(b@),
        spec_u32_be(x) == b@,
{
    let x = ((b[0] as u32) << 24) | ((b[1] as u32) << 16) | ((b[2] as u32) << 8) | (b[3] as u32);
    proof {
        lemma_u32_be_inverse(b@);
    }
    x
}

/// Big-endian bytes of a 64-bit public value, most significant first.
pub fn u64_to_be_bytes(x: u64) -> (out: Vec<u8>)
    ensures
        out@ == spec_u64_be(x),
{
    let mut out: Vec<u8> = Vec::new();
    out.push((x >> 56) as u8);
    out.push((x >> 48) as u8);
    out.push((x >> 40) as u8);
    out.push((x >> 32) as u8);
    out.push((x >> 24) as u8);
    out.push((x >> 16) as u8);
    out.push((x >> 8) as u8);
    out.push(x as u8);
    proof {
        assert(out@ =~= spec_u64_be(x));
    }
    out
}

/// The 64-bit public value carried by 8 big-endian bytes.
pub fn u64_from_be_bytes(b: &[u8]) -> (x: u64)
    requires
        b@.len() == 8,
    ensures
        x == spec_u64_from_be(b@),
{
    ((b[0] as u64) << 56) | ((b[1] as u64) << 48) | ((b[2] as u64) << 40) | ((b[3] as u64) << 32)
        | ((b[4] as u64) << 24) | ((b[5] as u64) << 16) | ((b[6] as u64) << 8) | (b[7] as u64)
}

/// Frame a ciphertext in an envelope: its length as a 4-byte big-endian
/// header, then the ciphertext itself.
pub fn encode_envelope(ciphertext: &[u8]) -> (out: Vec<u8>)
    requires
        ciphertext@.len() <= u32::MAX,
    ensures
        out@ == spec_envelope(ciphertext@),
{
    let len: u32 = ciphertext.len() as u32;
    let mut out = u32_to_be_bytes(len);
    out.extend_from_slice(ciphertext);
    proof {
        assert(out@ =~= spec_envelope(ciphertext@));
    }
    out
}

} // verus!
