//! Byte-level primitives of the wire format: fixed-width words in either
//! byte order, and the IEEE-754 bit-pattern test for NaN ordinates.

use vstd::prelude::*;

use crate::common::Endianness;

verus! {

/// Exponent mask of an IEEE-754 binary64 value.
pub const F64_EXP_MASK: u64 = 0x7FF0000000000000;

/// Fraction mask of an IEEE-754 binary64 value.
pub const F64_FRAC_MASK: u64 = 0x000FFFFFFFFFFFFF;

/// The bit pattern written for a NaN ordinate (the quiet NaN of `f64::NAN`).
pub const F64_NAN_BITS: u64 = 0x7FF8000000000000;

/// Whether a 64-bit pattern denotes an IEEE-754 NaN (exponent all ones,
/// fraction non-zero).
pub open spec fn spec_is_nan64(x: u64) -> bool {
    x & F64_EXP_MASK == F64_EXP_MASK && x & F64_FRAC_MASK != 0
}

/// Executable form of [`spec_is_nan64`].
pub fn is_nan64(x: u64) -> (r: bool)
    ensures
        r == spec_is_nan64(x),
{
    x & F64_EXP_MASK == F64_EXP_MASK && x & F64_FRAC_MASK != 0
}

/// The `u32` denoted by four bytes in the given byte order.
pub open spec fn spec_word32(b: Seq<u8>, bo: Endianness) -> u32
    recommends
        b.len() == 4,
{
    match bo {
        Endianness::LittleEndian => (b[0] as u32) | (b[1] as u32) << 8 | (b[2] as u32) << 16 | (
        b[3] as u32) << 24,
        Endianness::BigEndian => (b[3] as u32) | (b[2] as u32) << 8 | (b[1] as u32) << 16 | (
        b[0] as u32) << 24,
    }
}

/// The `u64` denoted by eight bytes in the given byte order.
pub open spec fn spec_word64(b: Seq<u8>, bo: Endianness) -> u64
    recommends
        b.len() == 8,
{
    match bo {
        Endianness::LittleEndian => (b[0] as u64) | (b[1] as u64) << 8 | (b[2] as u64) << 16 | (
        b[3] as u64) << 24 | (b[4] as u64) << 32 | (b[5] as u64) << 40 | (b[6] as u64) << 48 | (
        b[7] as u64) << 56,
        Endianness::BigEndian => (b[7] as u64) | (b[6] as u64) << 8 | (b[5] as u64) << 16 | (
        b[4] as u64) << 24 | (b[3] as u64) << 32 | (b[2] as u64) << 40 | (b[1] as u64) << 48 | (
        b[0] as u64) << 56,
    }
}

/// The four bytes that denote `x` in the given byte order.
pub open spec fn spec_u32_bytes(x: u32, bo: Endianness) -> Seq<u8> {
    match bo {
        Endianness::LittleEndian => seq![
            (x & 0xff) as u8,
            ((x >> 8) & 0xff) as u8,
            ((x >> 16) & 0xff) as u8,
            ((x >> 24) & 0xff) as u8,
        ],
        Endianness::BigEndian => seq![
            ((x >> 24) & 0xff) as u8,
            ((x >> 16) & 0xff) as u8,
            ((x >> 8) & 0xff) as u8,
            (x & 0xff) as u8,
        ],
    }
}

/// The eight bytes that denote `x` in the given byte order.
pub open spec fn spec_u64_bytes(x: u64, bo: Endianness) -> Seq<u8> {
    match bo {
        Endianness::LittleEndian => seq![
            (x & 0xff) as u8,
            ((x >> 8) & 0xff) as u8,
            ((x >> 16) & 0xff) as u8,
            ((x >> 24) & 0xff) as u8,
            ((x >> 32) & 0xff) as u8,
            ((x >> 40) & 0xff) as u8,
            ((x >> 48) & 0xff) as u8,
            ((x >> 56) & 0xff) as u8,
        ],
        Endianness::BigEndian => seq![
            ((x >> 56) & 0xff) as u8,
            ((x >> 48) & 0xff) as u8,
            ((x >> 40) & 0xff) as u8,
            ((x >> 32) & 0xff) as u8,
            ((x >> 24) & 0xff) as u8,
            ((x >> 16) & 0xff) as u8,
            ((x >> 8) & 0xff) as u8,
            (x & 0xff) as u8,
        ],
    }
}

/// Reading back the four bytes of a `u32` yields the value again.
pub proof fn lemma_word32_roundtrip(x: u32, bo: Endianness)
    ensures
        spec_u32_bytes(x, bo).len() == 4,
        spec_word32(spec_u32_bytes(x, bo), bo) == x,
{
    assert((((x & 0xff) as u8) as u32) | ((((x >> 8) & 0xff) as u8) as u32) << 8 | ((((x >> 16)
        & 0xff) as u8) as u32) << 16 | ((((x >> 24) & 0xff) as u8) as u32) << 24 == x)
        by (bit_vector);
}

/// Reading back the eight bytes of a `u64` yields the value again.
pub proof fn lemma_word64_roundtrip(x: u64, bo: Endianness)
    ensures
        spec_u64_bytes(x, bo).len() == 8,
        spec_word64(spec_u64_bytes(x, bo), bo) == x,
{
    assert((((x & 0xff) as u8) as u64) | ((((x >> 8) & 0xff) as u8) as u64) << 8 | ((((x >> 16)
        & 0xff) as u8) as u64) << 16 | ((((x >> 24) & 0xff) as u8) as u64) << 24 | ((((x >> 32)
        & 0xff) as u8) as u64) << 32 | ((((x >> 40) & 0xff) as u8) as u64) << 40 | ((((x >> 48)
        & 0xff) as u8) as u64) << 48 | ((((x >> 56) & 0xff) as u8) as u64) << 56 == x)
        by (bit_vector);
}

/// Read the `u32` whose four bytes start at `off`.
pub fn read_u32_at(buf: &[u8], off: usize, bo: Endianness) -> (r: u32)
    requires
        off + 4 <= buf@.len(),
    ensures
        r == spec_word32(buf@.subrange(off as int, off as int + 4), bo),
{
    let b0 = buf[off] as u32;
    let b1 = buf[off + 1] as u32;
    let b2 = buf[off + 2] as u32;
    let b3 = buf[off + 3] as u32;
    match bo {
        Endianness::LittleEndian => b0 | b1 << 8 | b2 << 16 | b3 << 24,
        Endianness::BigEndian => b3 | b2 << 8 | b1 << 16 | b0 << 24,
    }
}

/// Read the `u64` whose eight bytes start at `off`.
pub fn read_u64_at(buf: &[u8], off: usize, bo: Endianness) -> (r: u64)
    requires
        off + 8 <= buf@.len(),
    ensures
        r == spec_word64(buf@.subrange(off as int, off as int + 8), bo),
{
    let b0 = buf[off] as u64;
    let b1 = buf[off + 1] as u64;
    let b2 = buf[off + 2] as u64;
    let b3 = buf[off + 3] as u64;
    let b4 = buf[off + 4] as u64;
    let b5 = buf[off + 5] as u64;
    let b6 = buf[off + 6] as u64;
    let b7 = buf[off + 7] as u64;
    match bo {
        Endianness::LittleEndian => b0 | b1 << 8 | b2 << 16 | b3 << 24 | b4 << 32 | b5 << 40 | b6
            << 48 | b7 << 56,
        Endianness::BigEndian => b7 | b6 << 8 | b5 << 16 | b4 << 24 | b3 << 32 | b2 << 40 | b1 << 48
            | b0 << 56,
    }
}

/// Append the four bytes of `x` in the given byte order.
pub fn put_u32(out: &mut Vec<u8>, x: u32, bo: Endianness)
    ensures
        final(out)@ == old(out)@ + spec_u32_bytes(x, bo),
{
    match bo {
        Endianness::LittleEndian => {
            out.push((x & 0xff) as u8);
            out.push(((x >> 8) & 0xff) as u8);
            out.push(((x >> 16) & 0xff) as u8);
            out.push(((x >> 24) & 0xff) as u8);
        },
        Endianness::BigEndian => {
            out.push(((x >> 24) & 0xff) as u8);
            out.push(((x >> 16) & 0xff) as u8);
            out.push(((x >> 8) & 0xff) as u8);
            out.push((x & 0xff) as u8);
        },
    }
    assert(out@ =~= old(out)@ + spec_u32_bytes(x, bo));
}

/// Append the eight bytes of `x` in the given byte order.
pub fn put_u64(out: &mut Vec<u8>, x: u64, bo: Endianness)
    ensures
        final(out)@ == old(out)@ + spec_u64_bytes(x, bo),
{
    match bo {
        Endianness::LittleEndian => {
            out.push((x & 0xff) as u8);
            out.push(((x >> 8) & 0xff) as u8);
            out.push(((x >> 16) & 0xff) as u8);
            out.push(((x >> 24) & 0xff) as u8);
            out.push(((x >> 32) & 0xff) as u8);
            out.push(((x >> 40) & 0xff) as u8);
            out.push(((x >> 48) & 0xff) as u8);
            out.push(((x >> 56) & 0xff) as u8);
        },
        Endianness::BigEndian => {
            out.push(((x >> 56) & 0xff) as u8);
            out.push(((x >> 48) & 0xff) as u8);
            out.push(((x >> 40) & 0xff) as u8);
            out.push(((x >> 32) & 0xff) as u8);
            out.push(((x >> 24) & 0xff) as u8);
            out.push(((x >> 16) & 0xff) as u8);
            out.push(((x >> 8) & 0xff) as u8);
            out.push((x & 0xff) as u8);
        },
    }
    assert(out@ =~= old(out)@ + spec_u64_bytes(x, bo));
}

} // verus!
