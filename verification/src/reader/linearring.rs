//! A linear ring: a headerless run of coordinates prefixed by its count.

use vstd::prelude::*;

use crate::common::Dimension;
use crate::common::Endianness;
use crate::common::spec_dim_size;
use crate::error::{WkbError, WkbResult};
use crate::model::spec_coords_at;
use crate::model::spec_count_fits;
use crate::model::spec_decode_ls_body;
use crate::model::lemma_coords_at_agree;
use crate::reader::coord::Coord;
use crate::wire::read_u32_at;
use crate::wire::spec_word32;

verus! {

/// The error a malformed LineString body produces, in the order its fields
/// are read: a truncated count field, an unrepresentable count, or declared
/// coordinates that would end past the buffer.
pub open spec fn spec_ls_body_err(b: Seq<u8>, bo: Endianness, dim: Dimension) -> WkbError
    recommends
        spec_decode_ls_body(b, bo, dim) is None,
{
    if b.len() < 4 {
        WkbError::BufferTooShort { expected: 4, actual: b.len() as u64 }
    } else {
        let n = spec_word32(b.subrange(0, 4), bo);
        if !spec_count_fits(n as nat) {
            WkbError::InvalidCount(n as u64)
        } else {
            WkbError::InvalidBufferLength {
                expected_end: (4 + (n as nat) * spec_dim_size(dim) * 8) as u64,
                buf_len: b.len() as u64,
            }
        }
    }
}

/// A linear ring in a WKB buffer.
///
/// This has been preprocessed, so access to any internal coordinate is
/// `O(1)`.
#[derive(Debug, Clone, Copy)]
pub struct LinearRing<'a> {
    /// The underlying WKB buffer, trimmed to this ring's exact extent.
    buf: &'a [u8],
    /// The byte order of this WKB buffer.
    byte_order: Endianness,
    /// The number of points in this linear ring.
    num_points: usize,
    dim: Dimension,
}

impl<'a> View for LinearRing<'a> {
    type V = Seq<Seq<u64>>;

    /// The coordinates this ring denotes.
    closed spec fn view(&self) -> Seq<Seq<u64>> {
        spec_coords_at(self.buf@, 4, self.byte_order, self.dim, self.num_points as nat)
    }
}

impl<'a> LinearRing<'a> {
    /// The trimmed buffer region this view reads.
    pub closed spec fn spec_buf(&self) -> Seq<u8> {
        self.buf@
    }

    /// The byte order this view reads with.
    pub closed spec fn spec_byte_order(&self) -> Endianness {
        self.byte_order
    }

    /// The dimension of this view.
    pub closed spec fn spec_dim(&self) -> Dimension {
        self.dim
    }

    /// The declared point count of this ring.
    pub closed spec fn spec_num_points(&self) -> nat {
        self.num_points as nat
    }

    /// The buffer is trimmed to the count field plus exactly the declared
    /// coordinates.
    pub closed spec fn wf(&self) -> bool {
        &&& self.buf@.len() == 4 + self.num_points as nat * spec_dim_size(self.dim) * 8
        &&& spec_word32(self.buf@.subrange(0, 4), self.byte_order) == self.num_points as u32
    }

    /// Construct a new LinearRing from a WKB buffer.
    ///
    /// This will parse the number of points and validate the buffer length.
    pub(crate) fn try_new(buf: &'a [u8], byte_order: Endianness, dim: Dimension) -> (r: WkbResult<
        Self,
    >)
        ensures
            match r {
                Ok(ring) => {
                    &&& ring.wf()
                    &&& ring.spec_byte_order() == byte_order
                    &&& ring.spec_dim() == dim
                    &&& ring.spec_num_points() == ring@.len()
                    &&& ring.spec_buf() == buf@.subrange(0, ring.spec_buf().len() as int)
                    &&& spec_decode_ls_body(buf@, byte_order, dim) == Some(
                        (ring@, ring.spec_buf().len() as nat),
                    )
                },
                Err(e) => {
                    &&& spec_decode_ls_body(buf@, byte_order, dim) is None
                    &&& e == spec_ls_body_err(buf@, byte_order, dim)
                },
            },
    {
        if buf.len() < 4 {
            return Err(WkbError::BufferTooShort { expected: 4, actual: buf.len() as u64 });
        }
        let num_points_u32 = read_u32_at(buf, 0, byte_order);
        if num_points_u32 as u64 > usize::MAX as u64 {
            return Err(WkbError::InvalidCount(num_points_u32 as u64));
        }
        let num_points = num_points_u32 as usize;
        let ds = dim.size();
        let expected_end_abs: u64 = 4 + (num_points as u64) * (ds as u64) * 8;
        if expected_end_abs > buf.len() as u64 {
            return Self::handle_invalid_buffer_length(expected_end_abs, buf.len());
        }
        let end = expected_end_abs as usize;
        let trimmed: &[u8] = &buf[0..end];

        let ring = Self { buf: trimmed, byte_order, num_points, dim };
        proof {
            let extent: int = 4 + (num_points as int) * (spec_dim_size(dim) as int) * 8;
            assert(trimmed@.subrange(0, 4) =~= buf@.subrange(0, 4));
            assert(trimmed@.subrange(4, extent) =~= buf@.subrange(4, extent));
            lemma_coords_at_agree(trimmed@, buf@, 4, byte_order, dim, num_points as nat);
        }
        Ok(ring)
    }

    fn handle_invalid_buffer_length(expected_end_abs: u64, buf_len: usize) -> (r: WkbResult<Self>)
        ensures
            r == Err::<Self, WkbError>(
                WkbError::InvalidBufferLength {
                    expected_end: expected_end_abs,
                    buf_len: buf_len as u64,
                },
            ),
    {
        Err(WkbError::InvalidBufferLength { expected_end: expected_end_abs, buf_len: buf_len as u64 })
    }

    /// The number of bytes in this object, including any header.
    #[inline]
    pub fn size(&self) -> (r: u64)
        ensures
            r == self.spec_buf().len(),
    {
        self.buf.len() as u64
    }

    /// The offset into this buffer of any given coordinate.
    #[inline]
    pub fn coord_offset(&self, i: u64) -> (r: u64)
        requires
            self.wf(),
            i <= self.spec_num_points(),
        ensures
            r == 4 + spec_dim_size(self.spec_dim()) * 8 * i,
    {
        let total = self.buf.len();
        proof {
            let ds = spec_dim_size(self.dim) as int;
            assert(ds * 8 * (i as int) <= (self.num_points as int) * ds * 8) by (nonlinear_arith)
                requires
                    0 <= (i as int) <= (self.num_points as int),
                    2 <= ds <= 4,
            ;
        }
        4 + (self.dim.size() as u64 * 8 * i)
    }

    /// The dimension of this LinearRing.
    #[inline]
    pub fn dimension(&self) -> (r: Dimension)
        ensures
            r == self.spec_dim(),
    {
        self.dim
    }

    /// The slice of bytes containing the coordinates of this LinearRing. The
    /// byte order of the LinearRing can be obtained by calling
    /// [`LinearRing::byte_order`].
    #[inline]
    pub fn coords_slice(&self) -> (r: &'a [u8])
        requires
            self.wf(),
        ensures
            r@ == self.spec_buf().subrange(4, self.spec_buf().len() as int),
    {
        let start: usize = 4;
        let end = self.buf.len();
        &self.buf[start..end]
    }

    /// Get the byte order of this WKB LinearRing.
    #[inline]
    pub fn byte_order(&self) -> (r: Endianness)
        ensures
            r == self.spec_byte_order(),
    {
        self.byte_order
    }

    /// The number of coordinates in this ring.
    #[inline]
    pub fn num_coords(&self) -> (r: usize)
        ensures
            r == self@.len(),
            r == self.spec_num_points(),
    {
        self.num_points
    }

    /// The `i`th coordinate of this ring; the caller must keep `i` within
    /// the declared count.
    #[inline]
    pub fn coord_unchecked(&self, i: usize) -> (r: Coord<'a>)
        requires
            self.wf(),
            i < self.spec_num_points(),
        ensures
            r.wf(),
            r@ == self@[i as int],
            r.spec_byte_order() == self.spec_byte_order(),
            r.spec_dim() == self.spec_dim(),
    {
        let ds = self.dim.size();
        let total = self.buf.len();
        proof {
            let dsi = spec_dim_size(self.dim) as int;
            assert((i as int) * (dsi * 8) + dsi * 8 <= (self.num_points as int) * dsi * 8)
                by (nonlinear_arith)
                requires
                    (i as int) < (self.num_points as int),
                    2 <= dsi <= 4,
            ;
        }
        let offset = 4 + i * (ds * 8);
        let c = Coord::new(slice_range_from(self.buf, offset), self.byte_order, self.dim);
        proof {
            let b = self.buf@;
            let base = 4 + spec_dim_size(self.dim) * 8 * (i as int);
            assert(offset as int == base) by (nonlinear_arith)
                requires
                    base == 4 + spec_dim_size(self.dim) * 8 * (i as int),
                    offset == 4 + i * ((spec_dim_size(self.dim) as usize) * 8),
            ;
            assert(c.spec_buf() =~= b.skip(base));
            crate::model::lemma_coord_at_agree(
                b.skip(base),
                b.skip(base),
                0,
                self.byte_order,
                self.dim,
            );
            assert forall|k: int| 0 <= k < spec_dim_size(self.dim) implies #[trigger] b.skip(
                base,
            ).subrange(8 * k, 8 * k + 8) =~= b.subrange(base + 8 * k, base + 8 * k + 8) by {}
            assert(c@ =~= self@[i as int]);
        }
        c
    }

    /// The `i`th coordinate of this ring, or `None` past the declared count.
    #[inline]
    pub fn coord(&self, i: usize) -> (r: Option<Coord<'a>>)
        requires
            self.wf(),
        ensures
            match r {
                Some(c) => i < self@.len() && c.wf() && c@ == self@[i as int],
                None => i >= self@.len(),
            },
    {
        if i < self.num_points {
            Some(self.coord_unchecked(i))
        } else {
            None
        }
    }
}

/// The tail of `buf` from `start` on.
#[inline]
fn slice_range_from<'a>(buf: &'a [u8], start: usize) -> (r: &'a [u8])
    requires
        start <= buf@.len(),
    ensures
        r@ == buf@.skip(start as int),
{
    let end = buf.len();
    let r: &[u8] = &buf[start..end];
    proof {
        assert(r@ =~= buf@.skip(start as int));
    }
    r
}

} // verus!
