//! Small helpers shared by the parsers.

use vstd::prelude::*;

use crate::common::Endianness;
use crate::common::EWKB_FLAG_SRID;
use crate::common::spec_code_srid;
use crate::wire::read_u32_at;
use crate::wire::spec_word32;

verus! {

/// The sub-slice of `buf` from `start` (inclusive) to `end` (exclusive).
#[inline]
pub(crate) fn slice_range<'a>(buf: &'a [u8], start: usize, end: usize) -> (r: &'a [u8])
    requires
        start <= end <= buf@.len(),
    ensures
        r@ == buf@.subrange(start as int, end as int),
{
    &buf[start..end]
}

/// Whether the type code of the WKB object at the start of `buf` declares an
/// embedded SRID. The caller has already validated the five-byte header.
#[inline]
pub(crate) fn has_srid(buf: &[u8], byte_order: Endianness) -> (r: bool)
    requires
        buf@.len() >= 5,
    ensures
        r == spec_code_srid(spec_word32(buf@.subrange(1, 5), byte_order)),
{
    let code = read_u32_at(buf, 1, byte_order);
    code & EWKB_FLAG_SRID == EWKB_FLAG_SRID
}

} // verus!
