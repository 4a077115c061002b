//! Big-endian encoding of the 32-bit words stored in the state file.
//!
//! Every field of the state file occupies exactly four bytes, written in
//! big-endian byte order. The field's value is carried here as the `u32`
//! bit pattern of those four bytes.

use vstd::prelude::*;

verus! {

/// The four bytes of a 32-bit word, most significant first.
pub open spec fn spec_word_to_bytes(w: u32) -> Seq<u8> {
    seq![
        ((w >> 24) & 0xff) as u8,
        ((w >> 16) & 0xff) as u8,
        ((w >> 8) & 0xff) as u8,
        (w & 0xff) as u8,
    ]
}

/// The 32-bit word stored big-endian in a four-byte sequence.
pub open spec fn spec_word_from_bytes(b: Seq<u8>) -> u32
    recommends
        b.len() == 4,
{
    (((b[0] as u32) << 24) | ((b[1] as u32) << 16) | ((b[2] as u32) << 8) | (b[3] as u32)) as u32
}

/// Decoding the four bytes of a word gives the word back: the encoding
/// loses nothing.
pub proof fn lemma_word_bytes_roundtrip(w: u32)
    ensures
        spec_word_to_bytes(w).len() == 4,
        spec_word_from_bytes(spec_word_to_bytes(w)) == w,
{
    assert(((((((w >> 24) & 0xff) as u8) as u32) << 24) | (((((w >> 16) & 0xff) as u8) as u32)
        << 16) | (((((w >> 8) & 0xff) as u8) as u32) << 8) | (((w & 0xff) as u8) as u32)) as u32
        == w) by (bit_vector);
}

/// Encode a word as its four big-endian bytes.
pub fn word_to_bytes(w: u32) -> (b: Vec<u8>)
    ensures
        b@ == spec_word_to_bytes(w),
{
    proof {
        assert((w >> 24) & 0xff < 256 && (w >> 16) & 0xff < 256 && (w >> 8) & 0xff < 256 && w
            & 0xff < 256) by (bit_vector);
    }
    let mut b: Vec<u8> = Vec::new();
    b.push(((w >> 24) & 0xff) as u8);
    b.push(((w >> 16) & 0xff) as u8);
    b.push(((w >> 8) & 0xff) as u8);
    b.push((w & 0xff) as u8);
    proof {
        assert(b@ =~= spec_word_to_bytes(w));
    }
    b
}

/// Decode four big-endian bytes into the word they store.
pub fn word_from_bytes(b0: u8, b1: u8, b2: u8, b3: u8) -> (w: u32)
    ensures
        w == spec_word_from_bytes(seq![b0, b1, b2, b3]),
{
    ((b0 as u32) << 24) | ((b1 as u32) << 16) | ((b2 as u32) << 8) | (b3 as u32)
}

} // verus!
