//! A framed WKB LineString.

use vstd::prelude::*;

use crate::common::Dimension;
use crate::common::Endianness;
use crate::common::GeometryType;
use crate::common::spec_dim_size;
use crate::common::spec_header;
use crate::common::spec_header_len;
use crate::error::{WkbError, WkbResult};
use crate::model::LineStringModel;
use crate::model::spec_coords_at;
use crate::model::spec_count_fits;
use crate::model::spec_decode_ls_obj;
use crate::model::lemma_coords_at_agree;
use crate::model::lemma_coords_at_shift;
use crate::reader::coord::Coord;
use crate::reader::util::has_srid;
use crate::reader::util::slice_range;
use crate::wire::read_u32_at;
use crate::wire::spec_word32;

verus! {

/// The error a malformed framed LineString produces, in the order its
/// fields are read.
pub open spec fn spec_ls_obj_err(b: Seq<u8>) -> WkbError
    recommends
        spec_header(b) is Some,
        spec_decode_ls_obj(b) is None,
{
    let h = spec_header(b).unwrap();
    let off = spec_header_len(h);
    if b.len() < off + 4 {
        WkbError::BufferTooShort { expected: (off + 4) as u64, actual: b.len() as u64 }
    } else {
        let n = spec_word32(b.subrange(off as int, off as int + 4), h.byte_order);
        if !spec_count_fits(n as nat) {
            WkbError::InvalidCount(n as u64)
        } else {
            WkbError::InvalidBufferLength {
                expected_end: (off + 4 + (n as nat) * spec_dim_size(h.dim) * 8) as u64,
                buf_len: b.len() as u64,
            }
        }
    }
}

/// A WKB LineString.
///
/// This has been preprocessed, so access to any internal coordinate is
/// `O(1)`.
#[derive(Debug, Clone, Copy)]
pub struct LineString<'a> {
    /// The underlying buffer, trimmed to this LineString's exact extent.
    buf: &'a [u8],
    byte_order: Endianness,
    /// The number of points in this LineString WKB.
    num_points: usize,
    /// The offset into the buffer where the first coordinate is located.
    coord_offset: usize,
    dim: Dimension,
}

impl<'a> View for LineString<'a> {
    type V = LineStringModel;

    /// The LineString this view denotes.
    closed spec fn view(&self) -> LineStringModel {
        LineStringModel {
            dim: self.dim,
            coords: spec_coords_at(
                self.buf@,
                self.coord_offset as int,
                self.byte_order,
                self.dim,
                self.num_points as nat,
            ),
        }
    }
}

impl<'a> LineString<'a> {
    /// The trimmed buffer region this view reads.
    pub closed spec fn spec_buf(&self) -> Seq<u8> {
        self.buf@
    }

    /// The byte order this view reads with.
    pub closed spec fn spec_byte_order(&self) -> Endianness {
        self.byte_order
    }

    /// The dimension of this view.
    pub closed spec fn spec_dim(&self) -> Dimension {
        self.dim
    }

    /// The declared point count.
    pub closed spec fn spec_num_points(&self) -> nat {
        self.num_points as nat
    }

    /// The offset of the first coordinate: past the header, the SRID when
    /// one is declared, and the count field.
    pub closed spec fn spec_coord_offset(&self) -> nat {
        self.coord_offset as nat
    }

    /// The buffer is trimmed to a LineString header plus exactly the
    /// declared coordinates.
    pub closed spec fn wf(&self) -> bool {
        &&& spec_header(self.buf@) matches Some(h) && h.kind == GeometryType::LineString && h.dim
            == self.dim && h.byte_order == self.byte_order && self.coord_offset as nat
            == spec_header_len(h) + 4 && spec_word32(
            self.buf@.subrange(spec_header_len(h) as int, spec_header_len(h) as int + 4),
            self.byte_order,
        ) == self.num_points as u32
        &&& self.buf@.len() == self.coord_offset as nat + self.num_points as nat * spec_dim_size(
            self.dim,
        ) * 8
    }

    /// Construct a new LineString from a WKB buffer whose header has already
    /// been decoded by the caller.
    ///
    /// This will locate the count field past any SRID and validate the
    /// buffer length.
    pub(crate) fn try_new(buf: &'a [u8], byte_order: Endianness, dim: Dimension) -> (r: WkbResult<
        Self,
    >)
        requires
            spec_header(buf@) matches Some(h) && h.byte_order == byte_order && h.dim == dim
                && h.kind == GeometryType::LineString,
        ensures
            match r {
                Ok(ls) => {
                    &&& ls.wf()
                    &&& ls.spec_byte_order() == byte_order
                    &&& ls.spec_dim() == dim
                    &&& ls.spec_num_points() == ls@.coords.len()
                    &&& ls.spec_buf().len() <= buf@.len()
                    &&& ls.spec_buf() == buf@.subrange(0, ls.spec_buf().len() as int)
                    &&& spec_decode_ls_obj(buf@) == Some((ls@, ls.spec_buf().len() as nat))
                },
                Err(e) => {
                    &&& spec_decode_ls_obj(buf@) is None
                    &&& e == spec_ls_obj_err(buf@)
                },
            },
    {
        let has_srid = has_srid(buf, byte_order);
        let num_points_offset: usize = if has_srid {
            9
        } else {
            5
        };
        if buf.len() < num_points_offset + 4 {
            return Err(
                WkbError::BufferTooShort {
                    expected: (num_points_offset + 4) as u64,
                    actual: buf.len() as u64,
                },
            );
        }
        let num_points_u32 = read_u32_at(buf, num_points_offset, byte_order);
        proof {
            let off = num_points_offset as int;
            assert(buf@.skip(off).subrange(0, 4) =~= buf@.subrange(off, off + 4));
        }
        if num_points_u32 as u64 > usize::MAX as u64 {
            return Err(WkbError::InvalidCount(num_points_u32 as u64));
        }
        let num_points = num_points_u32 as usize;
        let coord_offset = num_points_offset + 4;  // Skip the 4-byte count field
        let ds = dim.size();
        let expected_end_abs: u64 = coord_offset as u64 + (num_points as u64) * (ds as u64) * 8;
        if expected_end_abs > buf.len() as u64 {
            return Self::handle_invalid_buffer_length(expected_end_abs, buf.len());
        }
        let end = expected_end_abs as usize;
        let trimmed: &[u8] = slice_range(buf, 0, end);
        let ls = Self { buf: trimmed, byte_order, num_points, coord_offset, dim };
        proof {
            let h = spec_header(buf@).unwrap();
            let off = num_points_offset as int;
            let extent: int = end as int;
            assert(spec_header(trimmed@) == Some(h)) by {
                assert(trimmed@.subrange(1, 5) =~= buf@.subrange(1, 5));
            }
            assert(trimmed@.subrange(off, off + 4) =~= buf@.subrange(off, off + 4));
            lemma_coords_at_shift(buf@, off + 4, 0, byte_order, dim, num_points as nat);
            assert(buf@.skip(off).skip(4) =~= buf@.skip(off + 4));
            lemma_coords_at_shift(buf@.skip(off), 4, 0, byte_order, dim, num_points as nat);
            // The coordinates of the suffix body equal those at the shifted
            // base of the full buffer, and of the trimmed buffer.
            assert(spec_coords_at(buf@.skip(off), 4, byte_order, dim, num_points as nat)
                =~= spec_coords_at(buf@.skip(off + 4), 0, byte_order, dim, num_points as nat));
            assert(trimmed@.subrange(coord_offset as int, extent) =~= buf@.subrange(
                coord_offset as int,
                extent,
            ));
            lemma_coords_at_agree(trimmed@, buf@, coord_offset as int, byte_order, dim, num_points as nat);
        }
        Ok(ls)
    }

    fn handle_invalid_buffer_length(expected_end_abs: u64, buf_len: usize) -> (r: WkbResult<Self>)
        ensures
            r == Err::<Self, WkbError>(
                WkbError::InvalidBufferLength {
                    expected_end: expected_end_abs,
                    buf_len: buf_len as u64,
                },
            ),
    {
        Err(
            WkbError::InvalidBufferLength {
                expected_end: expected_end_abs,
                buf_len: buf_len as u64,
            },
        )
    }

    /// The number of bytes in this object, including any header.
    #[inline]
    pub fn size(&self) -> (r: u64)
        ensures
            r == self.spec_buf().len(),
    {
        self.buf.len() as u64
    }

    /// The offset into this buffer of any given coordinate.
    #[inline]
    pub fn coord_offset(&self, i: u64) -> (r: u64)
        requires
            self.wf(),
            i <= self.spec_num_points(),
        ensures
            r == self.spec_coord_offset() + spec_dim_size(self.spec_dim()) * 8 * i,
    {
        let total = self.buf.len();
        proof {
            let ds = spec_dim_size(self.dim) as int;
            assert(ds * 8 * (i as int) <= (self.num_points as int) * ds * 8) by (nonlinear_arith)
                requires
                    0 <= (i as int) <= (self.num_points as int),
                    2 <= ds <= 4,
            ;
        }
        self.coord_offset as u64 + (self.dim.size() as u64 * 8 * i)
    }

    /// The dimension of this LineString.
    #[inline]
    pub fn dimension(&self) -> (r: Dimension)
        ensures
            r == self.spec_dim(),
    {
        self.dim
    }

    /// The slice of bytes containing the coordinates of this LineString. The
    /// byte order of the LineString can be obtained by calling
    /// [`LineString::byte_order`].
    #[inline]
    pub fn coords_slice(&self) -> (r: &'a [u8])
        requires
            self.wf(),
        ensures
            r@ == self.spec_buf().subrange(
                self.spec_coord_offset() as int,
                self.spec_buf().len() as int,
            ),
    {
        let start = self.coord_offset;
        let end = self.buf.len();
        slice_range(self.buf, start, end)
    }

    /// Get the byte order of this WKB LineString.
    #[inline]
    pub fn byte_order(&self) -> (r: Endianness)
        ensures
            r == self.spec_byte_order(),
    {
        self.byte_order
    }

    /// Get the underlying buffer of this LineString.
    #[inline]
    pub fn buf(&self) -> (r: &'a [u8])
        ensures
            r@ == self.spec_buf(),
    {
        self.buf
    }

    /// The number of coordinates in this LineString.
    #[inline]
    pub fn num_coords(&self) -> (r: usize)
        ensures
            r == self@.coords.len(),
            r == self.spec_num_points(),
    {
        self.num_points
    }

    /// The `i`th coordinate; the caller must keep `i` within the declared
    /// count.
    #[inline]
    pub fn coord_unchecked(&self, i: usize) -> (r: Coord<'a>)
        requires
            self.wf(),
            i < self.spec_num_points(),
        ensures
            r.wf(),
            r@ == self@.coords[i as int],
            r.spec_byte_order() == self.spec_byte_order(),
            r.spec_dim() == self.spec_dim(),
    {
        let ds = self.dim.size();
        let total = self.buf.len();
        proof {
            let dsi = spec_dim_size(self.dim) as int;
            assert((i as int) * (dsi * 8) + dsi * 8 <= (self.num_points as int) * dsi * 8)
                by (nonlinear_arith)
                requires
                    (i as int) < (self.num_points as int),
                    2 <= dsi <= 4,
            ;
        }
        let offset = self.coord_offset + i * (ds * 8);
        let c = Coord::new(slice_range(self.buf, offset, total), self.byte_order, self.dim);
        proof {
            let b = self.buf@;
            let base = self.coord_offset as int + spec_dim_size(self.dim) * 8 * (i as int);
            assert(c.spec_buf() =~= b.skip(base)) by {
                assert(offset as int == base);
            }
            assert forall|k: int| 0 <= k < spec_dim_size(self.dim) implies #[trigger] b.skip(
                base,
            ).subrange(8 * k, 8 * k + 8) =~= b.subrange(base + 8 * k, base + 8 * k + 8) by {}
            assert(c@ =~= self@.coords[i as int]);
        }
        c
    }

    /// The `i`th coordinate, or `None` past the declared count.
    #[inline]
    pub fn coord(&self, i: usize) -> (r: Option<Coord<'a>>)
        requires
            self.wf(),
        ensures
            match r {
                Some(c) => i < self@.coords.len() && c.wf() && c@ == self@.coords[i as int],
                None => i >= self@.coords.len(),
            },
    {
        if i < self.num_points {
            Some(self.coord_unchecked(i))
        } else {
            None
        }
    }
}

/// The dimension field of a LineString's model is the view's dimension.
pub proof fn lemma_ls_view_dim<'a>(ls: LineString<'a>)
    ensures
        ls@.dim == ls.spec_dim(),
{
}

} // verus!
