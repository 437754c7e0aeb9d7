//! Big-endian fixed-width integer fields of the wire format.
//!
//! The file format stores every integer big-endian.  These helpers give the
//! byte image of an integer and the integer read from a byte image, in both
//! specification and executable form, together with the round-trip laws the
//! codec proofs rest on.

use vstd::prelude::*;
use vstd::bytes::{
    lemma_auto_spec_u16_to_from_le_bytes, lemma_auto_spec_u32_to_from_le_bytes,
    lemma_auto_spec_u64_to_from_le_bytes, spec_u16_from_le_bytes, spec_u16_to_le_bytes,
    spec_u32_from_le_bytes, spec_u32_to_le_bytes, spec_u64_from_le_bytes, spec_u64_to_le_bytes,
    u16_from_le_bytes, u16_to_le_bytes, u32_from_le_bytes, u32_to_le_bytes, u64_from_le_bytes,
    u64_to_le_bytes,
};

verus! {

/// The two big-endian bytes of a 16-bit integer.
pub open spec fn spec_u16_be_bytes(x: u16) -> Seq<u8> {
    spec_u16_to_le_bytes(x).reverse()
}

/// The 16-bit integer stored in two big-endian bytes.
pub open spec fn spec_be16(b: Seq<u8>) -> u16 {
    spec_u16_from_le_bytes(b.reverse())
}

/// The four big-endian bytes of a 32-bit integer.
pub open spec fn spec_u32_be_bytes(x: u32) -> Seq<u8> {
    spec_u32_to_le_bytes(x).reverse()
}

/// The 32-bit integer stored in four big-endian bytes.
pub open spec fn spec_be32(b: Seq<u8>) -> u32 {
    spec_u32_from_le_bytes(b.reverse())
}

/// The eight big-endian bytes of a 64-bit integer.
pub open spec fn spec_u64_be_bytes(x: u64) -> Seq<u8> {
    spec_u64_to_le_bytes(x).reverse()
}

/// The 64-bit integer stored in eight big-endian bytes.
pub open spec fn spec_be64(b: Seq<u8>) -> u64 {
    spec_u64_from_le_bytes(b.reverse())
}

/// The unsigned 32-bit two's-complement image of a signed 32-bit integer.
pub open spec fn spec_i32_bits(x: i32) -> u32 {
    if x >= 0 {
        x as u32
    } else {
        (x + 0x1_0000_0000) as u32
    }
}

/// The signed 32-bit integer whose two's-complement image is the given bits.
pub open spec fn spec_i32_from_bits(n: u32) -> i32 {
    if n < 0x8000_0000 {
        n as i32
    } else {
        (n - 0x1_0000_0000) as i32
    }
}

/// Reading back the big-endian image of a 16-bit integer gives the integer.
pub proof fn lemma_u16_be_roundtrip(x: u16)
    ensures
        spec_u16_be_bytes(x).len() == 2,
        spec_be16(spec_u16_be_bytes(x)) == x,
{
    lemma_auto_spec_u16_to_from_le_bytes();
    assert(spec_u16_to_le_bytes(x).reverse().reverse() =~= spec_u16_to_le_bytes(x));
}

/// Reading back the big-endian image of a 32-bit integer gives the integer.
pub proof fn lemma_u32_be_roundtrip(x: u32)
    ensures
        spec_u32_be_bytes(x).len() == 4,
        spec_be32(spec_u32_be_bytes(x)) == x,
{
    lemma_auto_spec_u32_to_from_le_bytes();
    assert(spec_u32_to_le_bytes(x).reverse().reverse() =~= spec_u32_to_le_bytes(x));
}

/// Reading back the big-endian image of a 64-bit integer gives the integer.
pub proof fn lemma_u64_be_roundtrip(x: u64)
    ensures
        spec_u64_be_bytes(x).len() == 8,
        spec_be64(spec_u64_be_bytes(x)) == x,
{
    lemma_auto_spec_u64_to_from_le_bytes();
    assert(spec_u64_to_le_bytes(x).reverse().reverse() =~= spec_u64_to_le_bytes(x));
}

/// The two's-complement image of a signed integer reads back as that integer.
pub proof fn lemma_i32_bits_roundtrip(x: i32)
    ensures
        spec_i32_from_bits(spec_i32_bits(x)) == x,
{
}

/// Reads the 16-bit big-endian integer at `pos`.
pub fn read_u16_be(bytes: &[u8], pos: usize) -> (x: u16)
    requires
        pos + 2 <= bytes@.len(),
    ensures
        x == spec_be16(bytes@.subrange(pos as int, pos as int + 2)),
{
    let n = bytes.len();
    assert(pos + 2 <= n);
    let mut le: Vec<u8> = Vec::new();
    le.push(bytes[pos + 1]);
    le.push(bytes[pos]);
    proof {
        assert(le@ =~= bytes@.subrange(pos as int, pos as int + 2).reverse());
    }
    u16_from_le_bytes(le.as_slice())
}

/// Reads the 32-bit big-endian integer at `pos`.
pub fn read_u32_be(bytes: &[u8], pos: usize) -> (x: u32)
    requires
        pos + 4 <= bytes@.len(),
    ensures
        x == spec_be32(bytes@.subrange(pos as int, pos as int + 4)),
{
    let n = bytes.len();
    assert(pos + 4 <= n);
    let mut le: Vec<u8> = Vec::new();
    le.push(bytes[pos + 3]);
    le.push(bytes[pos + 2]);
    le.push(bytes[pos + 1]);
    le.push(bytes[pos]);
    proof {
        assert(le@ =~= bytes@.subrange(pos as int, pos as int + 4).reverse());
    }
    u32_from_le_bytes(le.as_slice())
}

/// Reads the 64-bit big-endian integer at `pos`.
pub fn read_u64_be(bytes: &[u8], pos: usize) -> (x: u64)
    requires
        pos + 8 <= bytes@.len(),
    ensures
        x == spec_be64(bytes@.subrange(pos as int, pos as int + 8)),
{
    let n = bytes.len();
    assert(pos + 8 <= n);
    let mut le: Vec<u8> = Vec::new();
    le.push(bytes[pos + 7]);
    le.push(bytes[pos + 6]);
    le.push(bytes[pos + 5]);
    le.push(bytes[pos + 4]);
    le.push(bytes[pos + 3]);
    le.push(bytes[pos + 2]);
    le.push(bytes[pos + 1]);
    le.push(bytes[pos]);
    proof {
        assert(le@ =~= bytes@.subrange(pos as int, pos as int + 8).reverse());
    }
    u64_from_le_bytes(le.as_slice())
}

/// Reads the signed 32-bit big-endian integer at `pos`.
pub fn read_i32_be(bytes: &[u8], pos: usize) -> (x: i32)
    requires
        pos + 4 <= bytes@.len(),
    ensures
        x == spec_i32_from_bits(spec_be32(bytes@.subrange(pos as int, pos as int + 4))),
{
    let n = read_u32_be(bytes, pos);
    if n < 0x8000_0000u32 {
        n as i32
    } else {
        ((n as i64) - 0x1_0000_0000i64) as i32
    }
}

/// Appends the two big-endian bytes of a 16-bit integer.
pub fn write_u16_be(out: &mut Vec<u8>, x: u16)
    ensures
        final(out)@ == old(out)@ + spec_u16_be_bytes(x),
{
    let ghost out0 = out@;
    let le = u16_to_le_bytes(x);
    proof {
        lemma_auto_spec_u16_to_from_le_bytes();
    }
    out.push(le[1]);
    out.push(le[0]);
    proof {
        assert(out@ =~= out0 + spec_u16_be_bytes(x));
    }
}

/// Appends the four big-endian bytes of a 32-bit integer.
pub fn write_u32_be(out: &mut Vec<u8>, x: u32)
    ensures
        final(out)@ == old(out)@ + spec_u32_be_bytes(x),
{
    let ghost out0 = out@;
    let le = u32_to_le_bytes(x);
    proof {
        lemma_auto_spec_u32_to_from_le_bytes();
    }
    out.push(le[3]);
    out.push(le[2]);
    out.push(le[1]);
    out.push(le[0]);
    proof {
        assert(out@ =~= out0 + spec_u32_be_bytes(x));
    }
}

/// Appends the eight big-endian bytes of a 64-bit integer.
pub fn write_u64_be(out: &mut Vec<u8>, x: u64)
    ensures
        final(out)@ == old(out)@ + spec_u64_be_bytes(x),
{
    let ghost out0 = out@;
    let le = u64_to_le_bytes(x);
    proof {
        lemma_auto_spec_u64_to_from_le_bytes();
    }
    out.push(le[7]);
    out.push(le[6]);
    out.push(le[5]);
    out.push(le[4]);
    out.push(le[3]);
    out.push(le[2]);
    out.push(le[1]);
    out.push(le[0]);
    proof {
        assert(out@ =~= out0 + spec_u64_be_bytes(x));
    }
}

/// Appends the four big-endian bytes of a signed 32-bit integer.
pub fn write_i32_be(out: &mut Vec<u8>, x: i32)
    ensures
        final(out)@ == old(out)@ + spec_u32_be_bytes(spec_i32_bits(x)),
{
    let n: u32 = if x >= 0 {
        x as u32
    } else {
        ((x as i64) + 0x1_0000_0000i64) as u32
    };
    write_u32_be(out, n);
}

} // verus!
