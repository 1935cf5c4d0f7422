//! A framed WKB MultiPoint: a run of fully framed Point objects.

use vstd::prelude::*;

use crate::common::Dimension;
use crate::common::Endianness;
use crate::common::GeometryType;
use crate::common::decode_header;
use crate::common::spec_dim_size;
use crate::common::spec_header;
use crate::error::{WkbError, WkbResult};
use crate::model::MultiPointModel;
use crate::model::PointModel;
use crate::model::spec_decode_mp_obj;
use crate::model::spec_decode_points;
use crate::model::spec_mp_child_ok;
use crate::reader::point::Point;
use crate::reader::util::has_srid;
use crate::reader::util::slice_range;
use crate::wire::read_u32_at;

verus! {

/// The Points a sequence of Point views denotes.
pub open spec fn spec_point_views<'a>(s: Seq<Point<'a>>) -> Seq<PointModel> {
    Seq::new(s.len(), |i: int| s[i]@)
}

/// A WKB MultiPoint.
///
/// Unlike the other homogeneous multi-geometries, its members are full
/// nested Point WKB objects, each with its own five-byte header; the member
/// headers must declare a plain Point of the parent's dimension with no
/// SRID of their own.
///
/// This has been preprocessed, so access to any internal coordinate is
/// `O(1)`.
#[derive(Debug, Clone)]
pub struct MultiPoint<'a> {
    /// A view for each of the internal points.
    points: Vec<Point<'a>>,
    /// The underlying buffer, trimmed to this MultiPoint's exact extent.
    buf: &'a [u8],
    byte_order: Endianness,
    /// The offset into the buffer where the first point is located.
    points_offset: usize,
    dim: Dimension,
}

impl<'a> View for MultiPoint<'a> {
    type V = MultiPointModel;

    /// The MultiPoint this view denotes.
    closed spec fn view(&self) -> MultiPointModel {
        MultiPointModel { dim: self.dim, points: spec_point_views(self.points@) }
    }
}

impl<'a> MultiPoint<'a> {
    /// The trimmed buffer region this view reads.
    pub closed spec fn spec_buf(&self) -> Seq<u8> {
        self.buf@
    }

    /// The byte order this view reads with.
    pub closed spec fn spec_byte_order(&self) -> Endianness {
        self.byte_order
    }

    /// The dimension of this view.
    pub closed spec fn spec_dim(&self) -> Dimension {
        self.dim
    }

    /// The offset of the first member point: past the header, the SRID when
    /// one is declared, and the count field.
    pub closed spec fn spec_points_offset(&self) -> nat {
        self.points_offset as nat
    }

    /// Every member view is well formed, of this geometry's dimension, and
    /// the member count is representable on the wire.
    pub closed spec fn wf(&self) -> bool {
        &&& self.points@.len() <= u32::MAX
        &&& self.points_offset as nat <= 13
        &&& forall|i: int|
            0 <= i < self.points@.len() ==> (#[trigger] self.points@[i]).wf()
                && self.points@[i].spec_dim() == self.dim
    }

    /// Construct a new MultiPoint from a WKB buffer whose header has already
    /// been decoded by the caller. Each member is parsed as a full framed
    /// Point whose own header must declare a plain Point of the parent's
    /// dimension.
    #[verifier::loop_isolation(false)]
    #[verifier::rlimit(100)]
    pub(crate) fn try_new(buf: &'a [u8], byte_order: Endianness, dim: Dimension) -> (r: WkbResult<
        Self,
    >)
        requires
            spec_header(buf@) matches Some(h) && h.byte_order == byte_order && h.dim == dim
                && h.kind == GeometryType::MultiPoint,
        ensures
            match r {
                Ok(m) => {
                    &&& m.wf()
                    &&& m.spec_byte_order() == byte_order
                    &&& m.spec_dim() == dim
                    &&& m.spec_buf().len() <= buf@.len()
                    &&& m.spec_buf() == buf@.subrange(0, m.spec_buf().len() as int)
                    &&& spec_decode_mp_obj(buf@) == Some((m@, m.spec_buf().len() as nat))
                },
                Err(_) => spec_decode_mp_obj(buf@) is None,
            },
    {
        let has_srid = has_srid(buf, byte_order);
        let num_points_offset: usize = if has_srid {
            9
        } else {
            5
        };
        if buf.len() < num_points_offset + 4 {
            return Err(
                WkbError::BufferTooShort {
                    expected: (num_points_offset + 4) as u64,
                    actual: buf.len() as u64,
                },
            );
        }
        let num_points_u32 = read_u32_at(buf, num_points_offset, byte_order);
        proof {
            let off = num_points_offset as int;
            assert(buf@.skip(off).subrange(0, 4) =~= buf@.subrange(off, off + 4));
        }
        if num_points_u32 as u64 > usize::MAX as u64 {
            return Err(WkbError::InvalidCount(num_points_u32 as u64));
        }
        let num_points = num_points_u32 as usize;
        let points_offset = num_points_offset + 4;
        let ghost body = buf@.skip(points_offset as int);

        let mut points: Vec<Point<'a>> = Vec::new();
        let mut point_cursor: usize = points_offset;
        let mut i: usize = 0;
        proof {
            assert(buf@.skip(num_points_offset as int).skip(4) =~= body);
        }
        while i < num_points
            invariant
                i <= num_points,
                points@.len() == i,
                points_offset <= point_cursor <= buf@.len(),
                forall|k: int|
                    0 <= k < i ==> (#[trigger] points@[k]).wf() && points@[k].spec_dim() == dim,
                match spec_decode_points(
                    buf@.skip(point_cursor as int),
                    dim,
                    (num_points - i) as nat,
                ) {
                    Some((rest, used2)) => spec_decode_points(body, dim, num_points as nat)
                        == Some(
                        (
                            spec_point_views(points@) + rest,
                            (point_cursor - points_offset) as nat + used2,
                        ),
                    ),
                    None => spec_decode_points(body, dim, num_points as nat) is None,
                },
            decreases num_points - i,
        {
            let suffix = slice_range(buf, point_cursor, buf.len());
            let child_header = match decode_header(suffix) {
                Ok(child_header) => child_header,
                Err(e) => {
                    return Err(e);
                },
            };
            if !(matches!(child_header.kind, GeometryType::Point) && !child_header.has_srid) {
                return Err(WkbError::MismatchedChildHeader);
            }
            if !(child_header.dim == dim) {
                return Err(WkbError::MismatchedChildHeader);
            }
            let point = match Point::try_new(suffix, child_header.byte_order, dim) {
                Ok(point) => point,
                Err(e) => {
                    return Err(e);
                },
            };
            let point_len = point.size() as usize;
            proof {
                assert(spec_mp_child_ok(suffix@, dim));
                assert(buf@.skip(point_cursor as int).skip(point_len as int) =~= buf@.skip(
                    point_cursor as int + point_len as int,
                ));
                assert(spec_point_views(points@.push(point)) =~= spec_point_views(points@) + seq![
                    point@,
                ]);
                let m = (num_points - i) as nat;
                let tail = buf@.skip(point_cursor as int + point_len as int);
                match spec_decode_points(tail, dim, (m - 1) as nat) {
                    Some((rest2, used3)) => {
                        assert((spec_point_views(points@) + seq![point@]) + rest2
                            =~= spec_point_views(points@) + (seq![point@] + rest2));
                    },
                    None => {},
                }
            }
            point_cursor = point_cursor + point_len;
            points.push(point);
            i = i + 1;
        }

        let trimmed: &[u8] = slice_range(buf, 0, point_cursor);
        let m = Self { points, buf: trimmed, byte_order, points_offset, dim };
        proof {
            assert(spec_point_views(m.points@) + Seq::<PointModel>::empty() =~= spec_point_views(
                m.points@,
            ));
        }
        Ok(m)
    }

    /// The number of bytes in this object, including any header.
    #[inline]
    pub fn size(&self) -> (r: u64)
        ensures
            r == self.spec_buf().len(),
    {
        self.buf.len() as u64
    }

    /// The offset into this buffer of any given member Point, under the
    /// uniform stride of SRID-free members.
    #[inline]
    pub fn point_offset(&self, i: u64) -> (r: u64)
        requires
            self.wf(),
            i <= self@.points.len(),
        ensures
            r == self.spec_points_offset() + (5 + spec_dim_size(self.spec_dim()) * 8) * i,
    {
        proof {
            let ds = spec_dim_size(self.dim) as int;
            assert((5 + ds * 8) * (i as int) <= 37 * 0xFFFF_FFFFint) by (nonlinear_arith)
                requires
                    0 <= (i as int) <= 0xFFFF_FFFFint,
                    2 <= ds <= 4,
            ;
        }
        self.points_offset as u64 + ((5 + self.dim.size() as u64 * 8) * i)
    }

    /// The dimension of this MultiPoint.
    #[inline]
    pub fn dimension(&self) -> (r: Dimension)
        ensures
            r == self.spec_dim(),
    {
        self.dim
    }

    /// Get the byte order of this WKB MultiPoint.
    #[inline]
    pub fn byte_order(&self) -> (r: Endianness)
        ensures
            r == self.spec_byte_order(),
    {
        self.byte_order
    }

    /// Get the underlying buffer of this MultiPoint.
    #[inline]
    pub fn buf(&self) -> (r: &'a [u8])
        ensures
            r@ == self.spec_buf(),
    {
        self.buf
    }

    /// The number of member points.
    #[inline]
    pub fn num_points(&self) -> (r: usize)
        ensures
            r == self@.points.len(),
    {
        self.points.len()
    }

    /// The `i`th member point; the caller must keep `i` within the declared
    /// count.
    #[inline]
    pub fn point_unchecked(&self, i: usize) -> (r: &Point<'a>)
        requires
            self.wf(),
            i < self@.points.len(),
        ensures
            r.wf(),
            r@ == self@.points[i as int],
            r.spec_dim() == self.spec_dim(),
    {
        &self.points[i]
    }

    /// The `i`th member point, or `None` past the declared count.
    #[inline]
    pub fn point(&self, i: usize) -> (r: Option<&Point<'a>>)
        requires
            self.wf(),
        ensures
            match r {
                Some(p) => i < self@.points.len() && p.wf() && p@ == self@.points[i as int]
                    && p.spec_dim() == self.spec_dim(),
                None => i >= self@.points.len(),
            },
    {
        if i < self.points.len() {
            Some(self.point_unchecked(i))
        } else {
            None
        }
    }
}

/// The dimension field of a MultiPoint's model is the view's dimension.
pub proof fn lemma_mp_view_dim<'a>(m: MultiPoint<'a>)
    ensures
        m@.dim == m.spec_dim(),
{
}

} // verus!
