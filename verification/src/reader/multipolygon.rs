//! A framed WKB MultiPolygon: a run of headerless Polygon bodies.

use vstd::prelude::*;

use crate::common::Dimension;
use crate::common::Endianness;
use crate::common::GeometryType;
use crate::common::spec_header;
use crate::error::{WkbError, WkbResult};
use crate::model::MultiPolygonModel;
use crate::model::spec_decode_mpoly_obj;
use crate::model::spec_decode_polys;
use crate::reader::polygon::Polygon;
use crate::reader::util::has_srid;
use crate::reader::util::slice_range;
use crate::wire::read_u32_at;

verus! {

/// The ring runs a sequence of Polygon views denotes.
pub open spec fn spec_polygon_views<'a>(s: Seq<Polygon<'a>>) -> Seq<Seq<Seq<Seq<u64>>>> {
    Seq::new(s.len(), |i: int| s[i]@.rings)
}

/// A WKB MultiPolygon.
///
/// Its members are headerless Polygon bodies (ring count plus rings, with no
/// byte-order or type prefix of their own), read with the parent's byte
/// order and dimension.
#[derive(Debug, Clone)]
pub struct MultiPolygon<'a> {
    /// A view for each of the internal polygons.
    wkb_polygons: Vec<Polygon<'a>>,
    /// The underlying buffer, trimmed to this MultiPolygon's exact extent.
    buf: &'a [u8],
    byte_order: Endianness,
    dim: Dimension,
}

impl<'a> View for MultiPolygon<'a> {
    type V = MultiPolygonModel;

    /// The MultiPolygon this view denotes.
    closed spec fn view(&self) -> MultiPolygonModel {
        MultiPolygonModel { dim: self.dim, polygons: spec_polygon_views(self.wkb_polygons@) }
    }
}

impl<'a> MultiPolygon<'a> {
    /// The trimmed buffer region this view reads.
    pub closed spec fn spec_buf(&self) -> Seq<u8> {
        self.buf@
    }

    /// The byte order this view reads with.
    pub closed spec fn spec_byte_order(&self) -> Endianness {
        self.byte_order
    }

    /// The dimension of this view.
    pub closed spec fn spec_dim(&self) -> Dimension {
        self.dim
    }

    /// Every member view is well formed and reads with this geometry's byte
    /// order and dimension.
    pub closed spec fn wf(&self) -> bool {
        forall|i: int|
            0 <= i < self.wkb_polygons@.len() ==> (#[trigger] self.wkb_polygons@[i]).wf()
                && self.wkb_polygons@[i].spec_byte_order() == self.byte_order
                && self.wkb_polygons@[i].spec_dim() == self.dim
    }

    /// Construct a new MultiPolygon from a WKB buffer whose header has
    /// already been decoded by the caller.
    #[verifier::loop_isolation(false)]
    #[verifier::rlimit(100)]
    pub(crate) fn try_new(buf: &'a [u8], byte_order: Endianness, dim: Dimension) -> (r: WkbResult<
        Self,
    >)
        requires
            spec_header(buf@) matches Some(h) && h.byte_order == byte_order && h.dim == dim
                && h.kind == GeometryType::MultiPolygon,
        ensures
            match r {
                Ok(m) => {
                    &&& m.wf()
                    &&& m.spec_byte_order() == byte_order
                    &&& m.spec_dim() == dim
                    &&& m.spec_buf().len() <= buf@.len()
                    &&& m.spec_buf() == buf@.subrange(0, m.spec_buf().len() as int)
                    &&& spec_decode_mpoly_obj(buf@) == Some((m@, m.spec_buf().len() as nat))
                },
                Err(_) => spec_decode_mpoly_obj(buf@) is None,
            },
    {
        let has_srid = has_srid(buf, byte_order);
        let num_polygons_offset: usize = if has_srid {
            9
        } else {
            5
        };
        if buf.len() < num_polygons_offset + 4 {
            return Err(
                WkbError::BufferTooShort {
                    expected: (num_polygons_offset + 4) as u64,
                    actual: buf.len() as u64,
                },
            );
        }
        let num_polygons_u32 = read_u32_at(buf, num_polygons_offset, byte_order);
        proof {
            let off = num_polygons_offset as int;
            assert(buf@.skip(off).subrange(0, 4) =~= buf@.subrange(off, off + 4));
        }
        if num_polygons_u32 as u64 > usize::MAX as u64 {
            return Err(WkbError::InvalidCount(num_polygons_u32 as u64));
        }
        let num_polygons = num_polygons_u32 as usize;
        let body_off = num_polygons_offset + 4;
        let ghost body = buf@.skip(body_off as int);

        let mut wkb_polygons: Vec<Polygon<'a>> = Vec::new();
        let mut polygon_offset: usize = body_off;
        let mut i: usize = 0;
        proof {
            assert(buf@.skip(num_polygons_offset as int).skip(4) =~= body);
        }
        while i < num_polygons
            invariant
                i <= num_polygons,
                wkb_polygons@.len() == i,
                body_off <= polygon_offset <= buf@.len(),
                forall|k: int|
                    0 <= k < i ==> (#[trigger] wkb_polygons@[k]).wf()
                        && wkb_polygons@[k].spec_byte_order() == byte_order
                        && wkb_polygons@[k].spec_dim() == dim,
                match spec_decode_polys(
                    buf@.skip(polygon_offset as int),
                    byte_order,
                    dim,
                    (num_polygons - i) as nat,
                ) {
                    Some((rest, used2)) => spec_decode_polys(
                        body,
                        byte_order,
                        dim,
                        num_polygons as nat,
                    ) == Some(
                        (
                            spec_polygon_views(wkb_polygons@) + rest,
                            (polygon_offset - body_off) as nat + used2,
                        ),
                    ),
                    None => spec_decode_polys(body, byte_order, dim, num_polygons as nat) is None,
                },
            decreases num_polygons - i,
        {
            let suffix = slice_range(buf, polygon_offset, buf.len());
            let polygon = match Polygon::try_new_at(suffix, byte_order, dim, 0) {
                Ok(polygon) => polygon,
                Err(e) => {
                    proof {
                        assert(suffix@.skip(0) =~= suffix@);
                    }
                    return Err(e);
                },
            };
            let polygon_len = polygon.size() as usize;
            proof {
                assert(suffix@.skip(0) =~= suffix@);
                assert(buf@.skip(polygon_offset as int).skip(polygon_len as int) =~= buf@.skip(
                    polygon_offset as int + polygon_len as int,
                ));
                assert(spec_polygon_views(wkb_polygons@.push(polygon)) =~= spec_polygon_views(
                    wkb_polygons@,
                ) + seq![polygon@.rings]);
                let m = (num_polygons - i) as nat;
                let tail = buf@.skip(polygon_offset as int + polygon_len as int);
                match spec_decode_polys(tail, byte_order, dim, (m - 1) as nat) {
                    Some((rest2, used3)) => {
                        assert((spec_polygon_views(wkb_polygons@) + seq![polygon@.rings]) + rest2
                            =~= spec_polygon_views(wkb_polygons@) + (seq![polygon@.rings]
                            + rest2));
                    },
                    None => {},
                }
            }
            polygon_offset = polygon_offset + polygon_len;
            wkb_polygons.push(polygon);
            i = i + 1;
        }

        let trimmed: &[u8] = slice_range(buf, 0, polygon_offset);
        let m = Self { wkb_polygons, buf: trimmed, byte_order, dim };
        proof {
            assert(spec_polygon_views(m.wkb_polygons@) + Seq::<Seq<Seq<Seq<u64>>>>::empty()
                =~= spec_polygon_views(m.wkb_polygons@));
        }
        Ok(m)
    }

    /// The number of bytes in this object, including any header.
    #[inline]
    pub fn size(&self) -> (r: u64)
        ensures
            r == self.spec_buf().len(),
    {
        self.buf.len() as u64
    }

    /// The dimension of this MultiPolygon.
    #[inline]
    pub fn dimension(&self) -> (r: Dimension)
        ensures
            r == self.spec_dim(),
    {
        self.dim
    }

    /// Get the byte order of this WKB MultiPolygon.
    #[inline]
    pub fn byte_order(&self) -> (r: Endianness)
        ensures
            r == self.spec_byte_order(),
    {
        self.byte_order
    }

    /// Get the underlying buffer of this MultiPolygon.
    #[inline]
    pub fn buf(&self) -> (r: &'a [u8])
        ensures
            r@ == self.spec_buf(),
    {
        self.buf
    }

    /// The number of member polygons.
    #[inline]
    pub fn num_polygons(&self) -> (r: usize)
        ensures
            r == self@.polygons.len(),
    {
        self.wkb_polygons.len()
    }

    /// The `i`th member polygon; the caller must keep `i` within the
    /// declared count.
    #[inline]
    pub fn polygon_unchecked(&self, i: usize) -> (r: &Polygon<'a>)
        requires
            self.wf(),
            i < self@.polygons.len(),
        ensures
            r.wf(),
            r@.rings == self@.polygons[i as int],
            r.spec_dim() == self.spec_dim(),
    {
        &self.wkb_polygons[i]
    }

    /// The `i`th member polygon, or `None` past the declared count.
    #[inline]
    pub fn polygon(&self, i: usize) -> (r: Option<&Polygon<'a>>)
        requires
            self.wf(),
        ensures
            match r {
                Some(p) => i < self@.polygons.len() && p.wf() && p@.rings == self@.polygons[i
                    as int] && p.spec_dim() == self.spec_dim(),
                None => i >= self@.polygons.len(),
            },
    {
        if i < self.wkb_polygons.len() {
            Some(self.polygon_unchecked(i))
        } else {
            None
        }
    }
}

/// The dimension field of a MultiPolygon's model is the view's dimension.
pub proof fn lemma_mpoly_view_dim<'a>(m: MultiPolygon<'a>)
    ensures
        m@.dim == m.spec_dim(),
{
}

} // verus!
