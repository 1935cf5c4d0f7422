//! A framed WKB Polygon: a run of linear rings.

use vstd::prelude::*;

use crate::common::Dimension;
use crate::common::Endianness;
use crate::common::GeometryType;
use crate::common::spec_header;
use crate::error::{WkbError, WkbResult};
use crate::model::PolygonModel;
use crate::model::spec_decode_poly_body;
use crate::model::spec_decode_poly_obj;
use crate::model::spec_decode_rings;
use crate::reader::linearring::LinearRing;
use crate::reader::util::has_srid;
use crate::reader::util::slice_range;
use crate::wire::read_u32_at;

verus! {

/// The coordinate runs a sequence of ring views denotes.
pub open spec fn spec_ring_views<'a>(s: Seq<LinearRing<'a>>) -> Seq<Seq<Seq<u64>>> {
    Seq::new(s.len(), |i: int| s[i]@)
}

/// A WKB Polygon.
///
/// This has been preprocessed, so access to any internal coordinate is
/// `O(1)`.
#[derive(Debug, Clone)]
pub struct Polygon<'a> {
    wkb_linear_rings: Vec<LinearRing<'a>>,
    /// The underlying buffer, trimmed to this Polygon's exact extent.
    buf: &'a [u8],
    byte_order: Endianness,
    dim: Dimension,
}

impl<'a> View for Polygon<'a> {
    type V = PolygonModel;

    /// The Polygon this view denotes.
    closed spec fn view(&self) -> PolygonModel {
        PolygonModel { dim: self.dim, rings: spec_ring_views(self.wkb_linear_rings@) }
    }
}

impl<'a> Polygon<'a> {
    /// The trimmed buffer region this view reads.
    pub closed spec fn spec_buf(&self) -> Seq<u8> {
        self.buf@
    }

    /// The byte order this view reads with.
    pub closed spec fn spec_byte_order(&self) -> Endianness {
        self.byte_order
    }

    /// The dimension of this view.
    pub closed spec fn spec_dim(&self) -> Dimension {
        self.dim
    }

    /// Every ring view is well formed, reads with this Polygon's byte order
    /// and dimension, and the ring count is the model's.
    pub closed spec fn wf(&self) -> bool {
        &&& forall|i: int|
            0 <= i < self.wkb_linear_rings@.len() ==> (#[trigger] self.wkb_linear_rings@[i]).wf()
                && self.wkb_linear_rings@[i].spec_byte_order() == self.byte_order
                && self.wkb_linear_rings@[i].spec_dim() == self.dim
    }

    /// Construct a new Polygon from a WKB buffer whose header has already
    /// been decoded by the caller.
    ///
    /// This will parse the ring count and extract all linear rings,
    /// fail-fast: any ring's failure is the Polygon's failure.
    pub(crate) fn try_new(buf: &'a [u8], byte_order: Endianness, dim: Dimension) -> (r: WkbResult<
        Self,
    >)
        requires
            spec_header(buf@) matches Some(h) && h.byte_order == byte_order && h.dim == dim
                && h.kind == GeometryType::Polygon,
        ensures
            match r {
                Ok(p) => {
                    &&& p.wf()
                    &&& p.spec_byte_order() == byte_order
                    &&& p.spec_dim() == dim
                    &&& p.spec_buf().len() <= buf@.len()
                    &&& p.spec_buf() == buf@.subrange(0, p.spec_buf().len() as int)
                    &&& spec_decode_poly_obj(buf@) == Some((p@, p.spec_buf().len() as nat))
                },
                Err(_) => spec_decode_poly_obj(buf@) is None,
            },
    {
        let has_srid = has_srid(buf, byte_order);
        let num_rings_offset: usize = if has_srid {
            9
        } else {
            5
        };
        if buf.len() < num_rings_offset {
            return Err(
                WkbError::BufferTooShort {
                    expected: (num_rings_offset + 4) as u64,
                    actual: buf.len() as u64,
                },
            );
        }
        let p = Self::try_new_at(buf, byte_order, dim, num_rings_offset)?;
        Ok(p)
    }

    /// Construct a Polygon whose ring-count field starts at `body_offset` of
    /// `buf`: 0 for the headerless bodies inside a MultiPolygon, past the
    /// header for a framed Polygon.
    #[verifier::loop_isolation(false)]
    #[verifier::rlimit(100)]
    pub(crate) fn try_new_at(
        buf: &'a [u8],
        byte_order: Endianness,
        dim: Dimension,
        body_offset: usize,
    ) -> (r: WkbResult<Self>)
        requires
            body_offset <= buf@.len(),
        ensures
            match r {
                Ok(p) => {
                    &&& p.wf()
                    &&& p.spec_byte_order() == byte_order
                    &&& p.spec_dim() == dim
                    &&& body_offset <= p.spec_buf().len() <= buf@.len()
                    &&& p.spec_buf() == buf@.subrange(0, p.spec_buf().len() as int)
                    &&& spec_decode_poly_body(buf@.skip(body_offset as int), byte_order, dim)
                        == Some((p@.rings, (p.spec_buf().len() - body_offset) as nat))
                },
                Err(_) => spec_decode_poly_body(buf@.skip(body_offset as int), byte_order, dim)
                    is None,
            },
    {
        let num_rings_offset = body_offset;
        if buf.len() - num_rings_offset < 4 {
            return Err(
                WkbError::BufferTooShort {
                    expected: 4,
                    actual: (buf.len() - num_rings_offset) as u64,
                },
            );
        }
        let num_rings_u32 = read_u32_at(buf, num_rings_offset, byte_order);
        proof {
            let off = num_rings_offset as int;
            assert(buf@.skip(off).subrange(0, 4) =~= buf@.subrange(off, off + 4));
        }
        if num_rings_u32 as u64 > usize::MAX as u64 {
            return Err(WkbError::InvalidCount(num_rings_u32 as u64));
        }
        let num_rings = num_rings_u32 as usize;
        let body_off = num_rings_offset + 4;
        let ghost body = buf@.skip(body_off as int);

        let mut wkb_linear_rings: Vec<LinearRing<'a>> = Vec::new();
        let mut ring_offset: usize = body_off;
        let mut i: usize = 0;
        proof {
            assert(buf@.skip(num_rings_offset as int).skip(4) =~= body);
        }
        while i < num_rings
            invariant
                i <= num_rings,
                wkb_linear_rings@.len() == i,
                body_off <= ring_offset <= buf@.len(),
                forall|k: int|
                    0 <= k < i ==> (#[trigger] wkb_linear_rings@[k]).wf()
                        && wkb_linear_rings@[k].spec_byte_order() == byte_order
                        && wkb_linear_rings@[k].spec_dim() == dim,
                match spec_decode_rings(
                    buf@.skip(ring_offset as int),
                    byte_order,
                    dim,
                    (num_rings - i) as nat,
                ) {
                    Some((rest, used2)) => spec_decode_rings(
                        body,
                        byte_order,
                        dim,
                        num_rings as nat,
                    ) == Some(
                        (
                            spec_ring_views(wkb_linear_rings@) + rest,
                            (ring_offset - body_off) as nat + used2,
                        ),
                    ),
                    None => spec_decode_rings(body, byte_order, dim, num_rings as nat) is None,
                },
            decreases num_rings - i,
        {
            let suffix = slice_range(buf, ring_offset, buf.len());
            let ring = match LinearRing::try_new(suffix, byte_order, dim) {
                Ok(ring) => ring,
                Err(e) => {
                    return Err(e);
                },
            };
            let ring_len = ring.size() as usize;
            proof {
                assert(buf@.skip(ring_offset as int).skip(ring_len as int) =~= buf@.skip(
                    ring_offset as int + ring_len as int,
                ));
                assert(spec_ring_views(wkb_linear_rings@.push(ring)) =~= spec_ring_views(
                    wkb_linear_rings@,
                ) + seq![ring@]);
                let m = (num_rings - i) as nat;
                let tail = buf@.skip(ring_offset as int + ring_len as int);
                match spec_decode_rings(tail, byte_order, dim, (m - 1) as nat) {
                    Some((rest2, used3)) => {
                        assert((spec_ring_views(wkb_linear_rings@) + seq![ring@]) + rest2
                            =~= spec_ring_views(wkb_linear_rings@) + (seq![ring@] + rest2));
                    },
                    None => {},
                }
            }
            ring_offset = ring_offset + ring_len;
            wkb_linear_rings.push(ring);
            i = i + 1;
        }

        let trimmed: &[u8] = slice_range(buf, 0, ring_offset);
        let p = Self { wkb_linear_rings, buf: trimmed, byte_order, dim };
        proof {
            assert(spec_ring_views(p.wkb_linear_rings@) + Seq::<Seq<Seq<u64>>>::empty()
                =~= spec_ring_views(p.wkb_linear_rings@));
        }
        Ok(p)
    }

    /// The number of bytes in this object, including any header.
    #[inline]
    pub fn size(&self) -> (r: u64)
        ensures
            r == self.spec_buf().len(),
    {
        self.buf.len() as u64
    }

    /// The dimension of this Polygon.
    #[inline]
    pub fn dimension(&self) -> (r: Dimension)
        ensures
            r == self.spec_dim(),
    {
        self.dim
    }

    /// Get the byte order of this WKB Polygon.
    #[inline]
    pub fn byte_order(&self) -> (r: Endianness)
        ensures
            r == self.spec_byte_order(),
    {
        self.byte_order
    }

    /// Get the underlying buffer of this Polygon.
    #[inline]
    pub fn buf(&self) -> (r: &'a [u8])
        ensures
            r@ == self.spec_buf(),
    {
        self.buf
    }

    /// The number of rings of this Polygon, the exterior included.
    #[inline]
    pub fn num_rings(&self) -> (r: usize)
        ensures
            r == self@.rings.len(),
    {
        self.wkb_linear_rings.len()
    }

    /// The number of interior rings: every ring but the exterior. A polygon
    /// with no rings at all (POLYGON EMPTY) has zero interiors.
    #[inline]
    pub fn num_interiors(&self) -> (r: usize)
        ensures
            r == if self@.rings.len() == 0 {
                0int
            } else {
                self@.rings.len() - 1
            },
    {
        // Support an empty polygon with no rings
        if self.wkb_linear_rings.is_empty() {
            0
        } else {
            self.wkb_linear_rings.len() - 1
        }
    }

    /// The exterior ring, or `None` for POLYGON EMPTY.
    #[inline]
    pub fn exterior(&self) -> (r: Option<&LinearRing<'a>>)
        requires
            self.wf(),
        ensures
            match r {
                Some(ring) => self@.rings.len() > 0 && ring.wf() && ring@ == self@.rings[0]
                    && ring.spec_dim() == self.spec_dim(),
                None => self@.rings.len() == 0,
            },
    {
        if self.wkb_linear_rings.is_empty() {
            None
        } else {
            Some(&self.wkb_linear_rings[0])
        }
    }

    /// The `i`th interior ring; the caller must keep `i` within the interior
    /// count.
    #[inline]
    pub fn interior_unchecked(&self, i: usize) -> (r: &LinearRing<'a>)
        requires
            self.wf(),
            i + 1 < self@.rings.len(),
        ensures
            r.wf(),
            r@ == self@.rings[i as int + 1],
            r.spec_dim() == self.spec_dim(),
    {
        let n = self.wkb_linear_rings.len();
        &self.wkb_linear_rings[i + 1]
    }

    /// The `i`th interior ring, or `None` past the interior count.
    #[inline]
    pub fn interior(&self, i: usize) -> (r: Option<&LinearRing<'a>>)
        requires
            self.wf(),
        ensures
            match r {
                Some(ring) => i + 1 < self@.rings.len() && ring.wf() && ring@ == self@.rings[i
                    as int + 1] && ring.spec_dim() == self.spec_dim(),
                None => i + 1 >= self@.rings.len(),
            },
    {
        if self.wkb_linear_rings.len() > 0 && i < self.wkb_linear_rings.len() - 1 {
            Some(self.interior_unchecked(i))
        } else {
            None
        }
    }
}

/// The dimension field of a Polygon's model is the view's dimension.
pub proof fn lemma_polygon_view_dim<'a>(p: Polygon<'a>)
    ensures
        p@.dim == p.spec_dim(),
{
}

} // verus!
