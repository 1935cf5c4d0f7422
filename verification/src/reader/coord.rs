//! A single coordinate inside a WKB buffer.

use vstd::prelude::*;

use crate::common::Dimension;
use crate::common::Endianness;
use crate::common::spec_dim_size;
use crate::model::spec_coord_at;
use crate::model::spec_all_nan;
use crate::wire::is_nan64;
use crate::wire::read_u64_at;

verus! {

/// A coordinate in a WKB buffer.
///
/// Note that according to the WKB specification this is called `"Point"`,
/// which is **not** the same as a WKB "framed" `Point`. A framed `Point` has
/// framing that includes the byte order and geometry type of the WKB buffer.
/// In contrast, this `Coord` is the building block of two to four 64-bit
/// ordinates that can occur within any geometry type.
///
/// Ordinates are exposed as the raw IEEE-754 bit patterns they are stored
/// as; interpreting them as floating-point numbers is the caller's business.
#[derive(Debug, Clone, Copy)]
pub struct Coord<'a> {
    /// The underlying WKB buffer, starting at this coordinate's first byte.
    buf: &'a [u8],
    /// The byte order of this WKB buffer.
    byte_order: Endianness,
    dim: Dimension,
}

impl<'a> View for Coord<'a> {
    type V = Seq<u64>;

    /// The ordinates this coordinate denotes.
    closed spec fn view(&self) -> Seq<u64> {
        spec_coord_at(self.buf@, 0, self.byte_order, self.dim)
    }
}

impl<'a> Coord<'a> {
    /// The buffer region this view reads.
    pub closed spec fn spec_buf(&self) -> Seq<u8> {
        self.buf@
    }

    /// The byte order this view reads with.
    pub closed spec fn spec_byte_order(&self) -> Endianness {
        self.byte_order
    }

    /// The dimension of this view.
    pub closed spec fn spec_dim(&self) -> Dimension {
        self.dim
    }

    /// The buffer holds at least the ordinates of the dimension.
    pub closed spec fn wf(&self) -> bool {
        self.buf@.len() >= spec_dim_size(self.dim) * 8
    }

    /// Wrap a buffer whose first bytes are one coordinate.
    pub(crate) fn new(buf: &'a [u8], byte_order: Endianness, dim: Dimension) -> (r: Self)
        requires
            buf@.len() >= spec_dim_size(dim) * 8,
        ensures
            r.wf(),
            r.spec_buf() == buf@,
            r.spec_byte_order() == byte_order,
            r.spec_dim() == dim,
            r@ == spec_coord_at(buf@, 0, byte_order, dim),
    {
        Self { buf, byte_order, dim }
    }

    /// The `n`th ordinate (0-indexed), as its raw bit pattern.
    #[inline]
    pub fn nth_bits(&self, n: usize) -> (r: u64)
        requires
            self.wf(),
            n < spec_dim_size(self.spec_dim()),
        ensures
            r == self@[n as int],
    {
        let r = read_u64_at(self.buf, n * 8, self.byte_order);
        proof {
            assert(self.buf@.subrange(n as int * 8, n as int * 8 + 8) =~= self.buf@.subrange(
                0 + 8 * (n as int),
                0 + 8 * (n as int) + 8,
            ));
        }
        r
    }

    /// The first ordinate (x), as its raw bit pattern.
    #[inline]
    pub fn x_bits(&self) -> (r: u64)
        requires
            self.wf(),
        ensures
            r == self@[0],
    {
        self.nth_bits(0)
    }

    /// The second ordinate (y), as its raw bit pattern.
    #[inline]
    pub fn y_bits(&self) -> (r: u64)
        requires
            self.wf(),
        ensures
            r == self@[1],
    {
        self.nth_bits(1)
    }

    /// Whether every ordinate of this coordinate is NaN.
    pub fn all_nan(&self) -> (r: bool)
        requires
            self.wf(),
        ensures
            r == spec_all_nan(self@),
    {
        let ds = self.dim.size();
        let mut i: usize = 0;
        while i < ds
            invariant
                self.wf(),
                ds == spec_dim_size(self.dim),
                i <= ds,
                forall|k: int| 0 <= k < i ==> crate::wire::spec_is_nan64(#[trigger] self@[k]),
            decreases ds - i,
        {
            if !is_nan64(self.nth_bits(i)) {
                return false;
            }
            i += 1;
        }
        true
    }

    /// Get the byte order of this WKB coordinate.
    #[inline]
    pub fn byte_order(&self) -> (r: Endianness)
        ensures
            r == self.spec_byte_order(),
    {
        self.byte_order
    }

    /// Get the slice of bytes containing the coordinate. The byte order
    /// of the coordinate can be obtained by calling [`Coord::byte_order`].
    #[inline]
    pub fn coord_slice(&self) -> (r: &'a [u8])
        requires
            self.wf(),
        ensures
            r@ == self.spec_buf().subrange(0, spec_dim_size(self.spec_dim()) * 8 as int),
    {
        let end = self.dim.size() * 8;
        &self.buf[0..end]
    }

    /// Get the dimension of this coordinate.
    #[inline]
    pub fn dimension(&self) -> (r: Dimension)
        ensures
            r == self.spec_dim(),
    {
        self.dim
    }

    /// The number of bytes in this object.
    #[inline]
    pub fn size(&self) -> (r: u64)
        ensures
            r == spec_dim_size(self.spec_dim()) * 8,
    {
        // A 2D Coord is just two 8-byte ordinates.
        (self.dim.size() as u64) * 8
    }
}

} // verus!
