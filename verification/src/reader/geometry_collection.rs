//! A framed WKB GeometryCollection: a run of fully self-described
//! geometries.

use vstd::prelude::*;

use crate::common::Dimension;
use crate::common::Endianness;
use crate::common::GeometryType;
use crate::common::spec_header;
use crate::error::{WkbError, WkbResult};
use crate::model::GeomModel;
use crate::model::PointModel;
use crate::model::GeometryCollectionModel;
use crate::model::spec_decode_gc_obj;
use crate::model::spec_decode_geoms;
use crate::reader::geometry::Wkb;
use crate::reader::util::has_srid;
use crate::reader::util::slice_range;
use crate::wire::read_u32_at;

verus! {

/// The geometries a sequence of parsed views denotes.
pub open spec fn spec_geom_views<'a>(s: Seq<Wkb<'a>>) -> Seq<GeomModel>
    decreases s,
{
    Seq::new(
        s.len(),
        |i: int|
            if 0 <= i < s.len() {
                s[i].spec_model()
            } else {
                GeomModel::Point(PointModel { dim: Dimension::Xy, coord: None })
            },
    )
}

/// A WKB GeometryCollection.
///
/// Its members are heterogeneous and fully self-described: each is parsed as
/// an independent top-level geometry with its own header, byte order, SRID
/// flag and dimension.
#[derive(Debug)]
pub struct GeometryCollection<'a> {
    /// A parsed view for each of the internal geometries.
    geometries: Vec<Wkb<'a>>,
    /// The underlying buffer, trimmed to this collection's exact extent.
    buf: &'a [u8],
    byte_order: Endianness,
    dim: Dimension,
}

impl<'a> View for GeometryCollection<'a> {
    type V = GeometryCollectionModel;

    /// The collection this view denotes.
    closed spec fn view(&self) -> GeometryCollectionModel {
        self.spec_model()
    }
}

impl<'a> GeometryCollection<'a> {
    /// The collection this view denotes.
    pub closed spec fn spec_model(&self) -> GeometryCollectionModel
        decreases self,
    {
        GeometryCollectionModel { dim: self.dim, geometries: spec_geom_views(self.geometries@) }
    }

    /// The trimmed buffer region this view reads.
    pub closed spec fn spec_buf(&self) -> Seq<u8> {
        self.buf@
    }

    /// The byte order of this collection's own framing.
    pub closed spec fn spec_byte_order(&self) -> Endianness {
        self.byte_order
    }

    /// The dimension of this view.
    pub closed spec fn spec_dim(&self) -> Dimension {
        self.dim
    }

    /// Every member view is well formed.
    pub closed spec fn wf(&self) -> bool
        decreases self,
    {
        forall|i: int| 0 <= i < self.geometries@.len() ==> (#[trigger] self.geometries@[i]).wf()
    }

    /// Construct a new GeometryCollection from a WKB buffer whose header has
    /// already been decoded by the caller.
    ///
    /// This will parse the member count and extract all contained
    /// geometries, each by a full top-level parse of its own.
    #[verifier::loop_isolation(false)]
    #[verifier::rlimit(100)]
    #[verifier::spinoff_prover]
    pub(crate) fn try_new(buf: &'a [u8], byte_order: Endianness, dim: Dimension) -> (r: WkbResult<
        Self,
    >)
        requires
            spec_header(buf@) matches Some(h) && h.byte_order == byte_order && h.dim == dim
                && h.kind == GeometryType::GeometryCollection,
        ensures
            match r {
                Ok(c) => {
                    &&& c.wf()
                    &&& c.spec_byte_order() == byte_order
                    &&& c.spec_dim() == dim
                    &&& c.spec_buf().len() <= buf@.len()
                    &&& c.spec_buf() == buf@.subrange(0, c.spec_buf().len() as int)
                    &&& spec_decode_gc_obj(buf@) == Some((c@, c.spec_buf().len() as nat))
                },
                Err(_) => spec_decode_gc_obj(buf@) is None,
            },
        decreases buf@.len(), 2int,
    {
        let has_srid = has_srid(buf, byte_order);
        let num_geometries_offset: usize = if has_srid {
            9
        } else {
            5
        };
        if buf.len() < num_geometries_offset + 4 {
            return Err(
                WkbError::BufferTooShort {
                    expected: (num_geometries_offset + 4) as u64,
                    actual: buf.len() as u64,
                },
            );
        }
        let num_geometries_u32 = read_u32_at(buf, num_geometries_offset, byte_order);
        proof {
            let off = num_geometries_offset as int;
            assert(buf@.skip(off).subrange(0, 4) =~= buf@.subrange(off, off + 4));
        }
        if num_geometries_u32 as u64 > usize::MAX as u64 {
            return Err(WkbError::InvalidCount(num_geometries_u32 as u64));
        }
        let num_geometries = num_geometries_u32 as usize;
        let body_off = num_geometries_offset + 4;
        let ghost body = buf@.skip(body_off as int);

        let mut geometries: Vec<Wkb<'a>> = Vec::new();
        let mut geometry_offset: usize = body_off;
        let mut i: usize = 0;
        proof {
            assert(buf@.skip(num_geometries_offset as int).skip(4) =~= body);
        }
        while i < num_geometries
            invariant
                i <= num_geometries,
                geometries@.len() == i,
                body_off <= geometry_offset <= buf@.len(),
                forall|k: int| 0 <= k < i ==> (#[trigger] geometries@[k]).wf(),
                match spec_decode_geoms(
                    buf@.skip(geometry_offset as int),
                    (num_geometries - i) as nat,
                ) {
                    Some((rest, used2)) => spec_decode_geoms(body, num_geometries as nat) == Some(
                        (
                            spec_geom_views(geometries@) + rest,
                            (geometry_offset - body_off) as nat + used2,
                        ),
                    ),
                    None => spec_decode_geoms(body, num_geometries as nat) is None,
                },
            decreases num_geometries - i,
        {
            let suffix = slice_range(buf, geometry_offset, buf.len());
            let geometry = match Wkb::try_new(suffix) {
                Ok(geometry) => geometry,
                Err(e) => {
                    return Err(e);
                },
            };
            let geometry_len = geometry.size() as usize;
            proof {
                assert(buf@.skip(geometry_offset as int).skip(geometry_len as int) =~= buf@.skip(
                    geometry_offset as int + geometry_len as int,
                ));
                crate::reader::geometry::lemma_wkb_view(geometry);
                assert(spec_geom_views(geometries@.push(geometry)) =~= spec_geom_views(geometries@)
                    + seq![geometry@]);
                let m = (num_geometries - i) as nat;
                let tail = buf@.skip(geometry_offset as int + geometry_len as int);
                match spec_decode_geoms(tail, (m - 1) as nat) {
                    Some((rest2, used3)) => {
                        assert((spec_geom_views(geometries@) + seq![geometry@]) + rest2
                            =~= spec_geom_views(geometries@) + (seq![geometry@] + rest2));
                    },
                    None => {},
                }
            }
            geometry_offset = geometry_offset + geometry_len;
            geometries.push(geometry);
            i = i + 1;
        }

        let trimmed: &[u8] = slice_range(buf, 0, geometry_offset);
        let c = Self { geometries, buf: trimmed, byte_order, dim };
        proof {
            assert(spec_geom_views(c.geometries@) + Seq::<GeomModel>::empty() =~= spec_geom_views(
                c.geometries@,
            ));
        }
        Ok(c)
    }

    /// The dimension of this GeometryCollection's own framing.
    pub fn dimension(&self) -> (r: Dimension)
        ensures
            r == self.spec_dim(),
    {
        self.dim
    }

    /// The number of bytes in this object, including any header.
    #[inline]
    pub fn size(&self) -> (r: u64)
        ensures
            r == self.spec_buf().len(),
    {
        self.buf.len() as u64
    }

    /// Get the byte order of this WKB GeometryCollection.
    #[inline]
    pub fn byte_order(&self) -> (r: Endianness)
        ensures
            r == self.spec_byte_order(),
    {
        self.byte_order
    }

    /// Return the underlying buffer of this GeometryCollection.
    #[inline]
    pub fn buf(&self) -> (r: &'a [u8])
        ensures
            r@ == self.spec_buf(),
    {
        self.buf
    }

    /// The number of member geometries.
    #[inline]
    pub fn num_geometries(&self) -> (r: usize)
        ensures
            r == self@.geometries.len(),
    {
        self.geometries.len()
    }

    /// The `i`th member geometry; the caller must keep `i` within the
    /// declared count.
    #[inline]
    pub fn geometry_unchecked(&self, i: usize) -> (r: &Wkb<'a>)
        requires
            self.wf(),
            i < self@.geometries.len(),
        ensures
            r.wf(),
            r@ == self@.geometries[i as int],
    {
        let r = &self.geometries[i];
        proof {
            crate::reader::geometry::lemma_wkb_view(*r);
        }
        r
    }

    /// The `i`th member geometry, or `None` past the declared count.
    #[inline]
    pub fn geometry(&self, i: usize) -> (r: Option<&Wkb<'a>>)
        requires
            self.wf(),
        ensures
            match r {
                Some(g) => i < self@.geometries.len() && g.wf() && g@ == self@.geometries[i as int],
                None => i >= self@.geometries.len(),
            },
    {
        if i < self.geometries.len() {
            Some(self.geometry_unchecked(i))
        } else {
            None
        }
    }
}

/// The view of a collection equals its model function.
pub proof fn lemma_gc_view<'a>(c: GeometryCollection<'a>)
    ensures
        c@ == c.spec_model(),
{
}

/// The dimension field of a collection's model is the view's dimension.
pub proof fn lemma_gc_view_dim<'a>(c: GeometryCollection<'a>)
    ensures
        c@.dim == c.spec_dim(),
{
}

} // verus!
