//! A framed WKB Point.

use vstd::prelude::*;

use crate::common::Dimension;
use crate::common::Endianness;
use crate::common::GeometryType;
use crate::common::spec_dim_size;
use crate::common::spec_header;
use crate::common::spec_header_len;
use crate::error::{WkbError, WkbResult};
use crate::model::PointModel;
use crate::model::spec_all_nan;
use crate::model::spec_decode_point_obj;
use crate::model::lemma_coord_at_shift;
use crate::reader::coord::Coord;
use crate::reader::util::has_srid;
use crate::reader::util::slice_range;

verus! {

/// A WKB Point.
///
/// This has been preprocessed, so access to the internal coordinate is
/// `O(1)`.
#[derive(Debug, Clone, Copy)]
pub struct Point<'a> {
    /// The coordinate inside this Point.
    coord: Coord<'a>,
    /// The underlying buffer, trimmed to this Point's exact extent.
    buf: &'a [u8],
    dim: Dimension,
    is_empty: bool,
}

impl<'a> View for Point<'a> {
    type V = PointModel;

    /// The Point this view denotes; all-NaN ordinates denote POINT EMPTY.
    closed spec fn view(&self) -> PointModel {
        PointModel {
            dim: self.dim,
            coord: if self.is_empty {
                None
            } else {
                Some(self.coord@)
            },
        }
    }
}

impl<'a> Point<'a> {
    /// The trimmed buffer region this view reads.
    pub closed spec fn spec_buf(&self) -> Seq<u8> {
        self.buf@
    }

    /// The dimension of this view.
    pub closed spec fn spec_dim(&self) -> Dimension {
        self.dim
    }

    /// The byte order this view reads with.
    pub closed spec fn spec_byte_order(&self) -> Endianness {
        self.coord.spec_byte_order()
    }

    /// The coordinate view inside this Point.
    pub closed spec fn spec_coord(&self) -> Coord<'a> {
        self.coord
    }

    /// The buffer is trimmed to a Point header (and SRID, when declared)
    /// plus exactly one coordinate, and the coordinate view covers it.
    pub closed spec fn wf(&self) -> bool {
        &&& spec_header(self.buf@) matches Some(h) && h.kind == GeometryType::Point && h.dim
            == self.dim && h.byte_order == self.coord.spec_byte_order() && self.buf@.len()
            == spec_header_len(h) + spec_dim_size(self.dim) * 8 && self.coord.spec_buf()
            == self.buf@.skip(spec_header_len(h) as int)
        &&& self.coord.wf()
        &&& self.coord.spec_dim() == self.dim
        &&& self.is_empty == spec_all_nan(self.coord@)
    }

    /// Construct a new Point from a WKB buffer whose header has already been
    /// decoded by the caller.
    pub(crate) fn try_new(buf: &'a [u8], byte_order: Endianness, dim: Dimension) -> (r: WkbResult<
        Self,
    >)
        requires
            spec_header(buf@) matches Some(h) && h.byte_order == byte_order && h.dim == dim
                && h.kind == GeometryType::Point,
        ensures
            match r {
                Ok(p) => {
                    &&& p.wf()
                    &&& p.spec_dim() == dim
                    &&& p.spec_byte_order() == byte_order
                    &&& p.spec_buf().len() <= buf@.len()
                    &&& p.spec_buf() == buf@.subrange(0, p.spec_buf().len() as int)
                    &&& spec_decode_point_obj(buf@) == Some((p@, p.spec_buf().len() as nat))
                },
                Err(e) => {
                    &&& spec_decode_point_obj(buf@) is None
                    &&& e == WkbError::InvalidBufferLength {
                        expected_end: (spec_header_len(spec_header(buf@).unwrap()) + spec_dim_size(
                            dim,
                        ) * 8) as u64,
                        buf_len: buf@.len() as u64,
                    }
                },
            },
    {
        let has_srid = has_srid(buf, byte_order);

        // The space of the byte order + geometry type, plus the SRID when
        // one is declared.
        let offset: usize = if has_srid {
            9
        } else {
            5
        };

        let expected_end = offset + dim.size() * 8;
        if buf.len() < expected_end {
            return Self::handle_invalid_buffer_length(expected_end, buf.len());
        }

        let coord = Coord::new(slice_range(buf, offset, expected_end), byte_order, dim);
        let is_empty = coord.all_nan();
        let trimmed: &[u8] = slice_range(buf, 0, expected_end);
        let p = Self { coord, buf: trimmed, dim, is_empty };
        proof {
            let h = spec_header(buf@).unwrap();
            assert(spec_header(trimmed@) == Some(h)) by {
                assert(trimmed@.subrange(1, 5) =~= buf@.subrange(1, 5));
            }
            lemma_coord_at_shift(buf@, offset as int, 0, byte_order, dim);
            assert(coord.spec_buf().subrange(0, spec_dim_size(dim) * 8 as int) =~= buf@.skip(
                offset as int,
            ).subrange(0, spec_dim_size(dim) * 8 as int));
            crate::model::lemma_coord_at_agree(
                coord.spec_buf(),
                buf@.skip(offset as int),
                0,
                byte_order,
                dim,
            );
            assert(p.coord.spec_buf() =~= trimmed@.skip(offset as int));
            assert(p@ == spec_decode_point_obj(buf@).unwrap().0);
        }
        Ok(p)
    }

    fn handle_invalid_buffer_length(expected_end: usize, buf_len: usize) -> (r: WkbResult<Self>)
        ensures
            r == Err::<Self, WkbError>(
                WkbError::InvalidBufferLength {
                    expected_end: expected_end as u64,
                    buf_len: buf_len as u64,
                },
            ),
    {
        Err(
            WkbError::InvalidBufferLength {
                expected_end: expected_end as u64,
                buf_len: buf_len as u64,
            },
        )
    }

    /// The number of bytes in this object, including any header.
    #[inline]
    pub fn size(&self) -> (r: u64)
        ensures
            r == self.spec_buf().len(),
    {
        self.buf.len() as u64
    }

    /// The dimension of this Point.
    #[inline]
    pub fn dimension(&self) -> (r: Dimension)
        ensures
            r == self.spec_dim(),
    {
        self.dim
    }

    /// Whether this Point is empty.
    #[inline]
    pub fn is_empty(&self) -> (r: bool)
        ensures
            r == (self@.coord is None),
    {
        self.is_empty
    }

    /// Get the byte order of this WKB Point.
    #[inline]
    pub fn byte_order(&self) -> (r: Endianness)
        ensures
            r == self.spec_byte_order(),
    {
        self.coord.byte_order()
    }

    /// Get the slice of bytes containing the coordinate. The byte order
    /// of the coordinate can be obtained by calling [`Point::byte_order`].
    #[inline]
    pub fn coord_slice(&self) -> (r: &'a [u8])
        requires
            self.wf(),
        ensures
            r@ == self.spec_coord().spec_buf().subrange(
                0,
                spec_dim_size(self.spec_dim()) * 8 as int,
            ),
    {
        self.coord.coord_slice()
    }

    /// Get the underlying buffer of this Point.
    #[inline]
    pub fn buf(&self) -> (r: &'a [u8])
        ensures
            r@ == self.spec_buf(),
    {
        self.buf
    }

    /// The coordinate of this Point, or `None` when the Point is empty.
    #[inline]
    pub fn coord(&self) -> (r: Option<Coord<'a>>)
        requires
            self.wf(),
        ensures
            match r {
                Some(c) => self@.coord == Some(c@) && c.wf() && c.spec_dim() == self.spec_dim(),
                None => self@.coord is None,
            },
    {
        if self.is_empty {
            None
        } else {
            Some(self.coord)
        }
    }
}

/// The dimension field of a Point's model is the view's dimension.
pub proof fn lemma_point_view_dim<'a>(p: Point<'a>)
    ensures
        p@.dim == p.spec_dim(),
{
}

} // verus!
