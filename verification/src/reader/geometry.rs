//! The top-level geometry dispatcher.

use vstd::prelude::*;

use crate::common::Dimension;
use crate::common::GeometryType;
use crate::common::decode_header;
use crate::error::WkbResult;
use crate::model::GeomModel;
use crate::model::spec_decode;
use crate::reader::geometry_collection::GeometryCollection;
use crate::reader::linestring::LineString;
use crate::reader::multilinestring::MultiLineString;
use crate::reader::multipoint::MultiPoint;
use crate::reader::multipolygon::MultiPolygon;
use crate::reader::point::Point;
use crate::reader::polygon::Polygon;

verus! {

/// The concrete parsed variant behind a [`Wkb`].
#[derive(Debug)]
pub enum WkbInner<'a> {
    Point(Point<'a>),
    LineString(LineString<'a>),
    Polygon(Polygon<'a>),
    MultiPoint(MultiPoint<'a>),
    MultiLineString(MultiLineString<'a>),
    MultiPolygon(MultiPolygon<'a>),
    GeometryCollection(GeometryCollection<'a>),
}

impl<'a> WkbInner<'a> {
    /// The geometry this variant denotes.
    pub closed spec fn spec_model(&self) -> GeomModel
        decreases self,
    {
        match self {
            WkbInner::Point(g) => GeomModel::Point(g@),
            WkbInner::LineString(g) => GeomModel::LineString(g@),
            WkbInner::Polygon(g) => GeomModel::Polygon(g@),
            WkbInner::MultiPoint(g) => GeomModel::MultiPoint(g@),
            WkbInner::MultiLineString(g) => GeomModel::MultiLineString(g@),
            WkbInner::MultiPolygon(g) => GeomModel::MultiPolygon(g@),
            WkbInner::GeometryCollection(g) => GeomModel::GeometryCollection(g.spec_model()),
        }
    }

    /// The trimmed buffer of the variant.
    pub closed spec fn spec_buf(&self) -> Seq<u8> {
        match self {
            WkbInner::Point(g) => g.spec_buf(),
            WkbInner::LineString(g) => g.spec_buf(),
            WkbInner::Polygon(g) => g.spec_buf(),
            WkbInner::MultiPoint(g) => g.spec_buf(),
            WkbInner::MultiLineString(g) => g.spec_buf(),
            WkbInner::MultiPolygon(g) => g.spec_buf(),
            WkbInner::GeometryCollection(g) => g.spec_buf(),
        }
    }

    /// The variant's view is well formed.
    pub closed spec fn wf(&self) -> bool
        decreases self,
    {
        match self {
            WkbInner::Point(g) => g.wf(),
            WkbInner::LineString(g) => g.wf(),
            WkbInner::Polygon(g) => g.wf(),
            WkbInner::MultiPoint(g) => g.wf(),
            WkbInner::MultiLineString(g) => g.wf(),
            WkbInner::MultiPolygon(g) => g.wf(),
            WkbInner::GeometryCollection(g) => g.wf(),
        }
    }
}

/// A parsed WKB geometry: the result of one validating pass over a buffer.
///
/// The reader records byte offsets for the relevant coordinate slices but
/// does not copy the underlying data, so every coordinate is constant-time
/// to access afterwards. Trailing bytes past the geometry's computed extent
/// are ignored, and [`Wkb::buf`] reports the trimmed extent actually
/// consumed.
#[derive(Debug)]
pub struct Wkb<'a> {
    /// The underlying buffer, trimmed to the geometry's exact extent.
    buf: &'a [u8],
    inner: WkbInner<'a>,
}

impl<'a> View for Wkb<'a> {
    type V = GeomModel;

    /// The geometry this view denotes.
    closed spec fn view(&self) -> GeomModel {
        self.spec_model()
    }
}

impl<'a> Wkb<'a> {
    /// The geometry this view denotes.
    pub closed spec fn spec_model(&self) -> GeomModel
        decreases self,
    {
        self.inner.spec_model()
    }

    /// The trimmed buffer region this view reads.
    pub closed spec fn spec_buf(&self) -> Seq<u8> {
        self.buf@
    }

    /// The inner variant.
    pub closed spec fn spec_inner(&self) -> WkbInner<'a> {
        self.inner
    }

    /// The variant is well formed and the buffer is its trimmed extent.
    pub closed spec fn wf(&self) -> bool
        decreases self,
    {
        &&& self.inner.wf()
        &&& self.buf@ == self.inner.spec_buf()
    }

    /// Parse a WKB byte slice into a geometry.
    ///
    /// This does one pass over the buffer to validate the contents and
    /// record the byte offsets of the coordinate slices; it does not copy
    /// the data. Trailing bytes past the geometry's computed extent are
    /// permitted and ignored.
    #[verifier::rlimit(100)]
    pub fn try_new(buf: &'a [u8]) -> (r: WkbResult<Self>)
        ensures
            match r {
                Ok(w) => {
                    &&& w.wf()
                    &&& w.spec_buf().len() <= buf@.len()
                    &&& w.spec_buf() == buf@.subrange(0, w.spec_buf().len() as int)
                    &&& spec_decode(buf@) == Some((w@, w.spec_buf().len() as nat))
                },
                Err(_) => spec_decode(buf@) is None,
            },
        decreases buf@.len(), 3int,
    {
        let header = match decode_header(buf) {
            Ok(header) => header,
            Err(e) => {
                return Err(e);
            },
        };
        let byte_order = header.byte_order;
        let dim = header.dim;
        let inner = match header.kind {
            GeometryType::Point => {
                let g = match Point::try_new(buf, byte_order, dim) {
                    Ok(g) => g,
                    Err(e) => {
                        return Err(e);
                    },
                };
                WkbInner::Point(g)
            },
            GeometryType::LineString => {
                let g = match LineString::try_new(buf, byte_order, dim) {
                    Ok(g) => g,
                    Err(e) => {
                        return Err(e);
                    },
                };
                WkbInner::LineString(g)
            },
            GeometryType::Polygon => {
                let g = match Polygon::try_new(buf, byte_order, dim) {
                    Ok(g) => g,
                    Err(e) => {
                        return Err(e);
                    },
                };
                WkbInner::Polygon(g)
            },
            GeometryType::MultiPoint => {
                let g = match MultiPoint::try_new(buf, byte_order, dim) {
                    Ok(g) => g,
                    Err(e) => {
                        return Err(e);
                    },
                };
                WkbInner::MultiPoint(g)
            },
            GeometryType::MultiLineString => {
                let g = match MultiLineString::try_new(buf, byte_order, dim) {
                    Ok(g) => g,
                    Err(e) => {
                        return Err(e);
                    },
                };
                WkbInner::MultiLineString(g)
            },
            GeometryType::MultiPolygon => {
                let g = match MultiPolygon::try_new(buf, byte_order, dim) {
                    Ok(g) => g,
                    Err(e) => {
                        return Err(e);
                    },
                };
                WkbInner::MultiPolygon(g)
            },
            GeometryType::GeometryCollection => {
                let g = match GeometryCollection::try_new(buf, byte_order, dim) {
                    Ok(g) => g,
                    Err(e) => {
                        return Err(e);
                    },
                };
                proof {
                    crate::reader::geometry_collection::lemma_gc_view(g);
                }
                WkbInner::GeometryCollection(g)
            },
        };
        let trimmed: &[u8] = match &inner {
            WkbInner::Point(g) => g.buf(),
            WkbInner::LineString(g) => g.buf(),
            WkbInner::Polygon(g) => g.buf(),
            WkbInner::MultiPoint(g) => g.buf(),
            WkbInner::MultiLineString(g) => g.buf(),
            WkbInner::MultiPolygon(g) => g.buf(),
            WkbInner::GeometryCollection(g) => g.buf(),
        };
        Ok(Self { buf: trimmed, inner })
    }

    /// Return the [`Dimension`] of this geometry.
    pub fn dimension(&self) -> (r: Dimension)
        ensures
            r == self@.dim(),
    {
        match &self.inner {
            WkbInner::Point(g) => {
                proof {
                    crate::reader::point::lemma_point_view_dim(*g);
                    assert(self@.dim() == g@.dim);
                }
                g.dimension()
            },
            WkbInner::LineString(g) => {
                proof {
                    crate::reader::linestring::lemma_ls_view_dim(*g);
                    assert(self@.dim() == g@.dim);
                }
                g.dimension()
            },
            WkbInner::Polygon(g) => {
                proof {
                    crate::reader::polygon::lemma_polygon_view_dim(*g);
                    assert(self@.dim() == g@.dim);
                }
                g.dimension()
            },
            WkbInner::MultiPoint(g) => {
                proof {
                    crate::reader::multipoint::lemma_mp_view_dim(*g);
                    assert(self@.dim() == g@.dim);
                }
                g.dimension()
            },
            WkbInner::MultiLineString(g) => {
                proof {
                    crate::reader::multilinestring::lemma_mls_view_dim(*g);
                    assert(self@.dim() == g@.dim);
                }
                g.dimension()
            },
            WkbInner::MultiPolygon(g) => {
                proof {
                    crate::reader::multipolygon::lemma_mpoly_view_dim(*g);
                    assert(self@.dim() == g@.dim);
                }
                g.dimension()
            },
            WkbInner::GeometryCollection(g) => {
                proof {
                    crate::reader::geometry_collection::lemma_gc_view(*g);
                    crate::reader::geometry_collection::lemma_gc_view_dim(*g);
                    assert(self@.dim() == g.spec_dim());
                }
                g.dimension()
            },
        }
    }

    /// Return the [`GeometryType`] of this geometry.
    pub fn geometry_type(&self) -> (r: GeometryType)
        ensures
            r == self@.kind(),
    {
        match &self.inner {
            WkbInner::Point(_) => GeometryType::Point,
            WkbInner::LineString(_) => GeometryType::LineString,
            WkbInner::Polygon(_) => GeometryType::Polygon,
            WkbInner::MultiPoint(_) => GeometryType::MultiPoint,
            WkbInner::MultiLineString(_) => GeometryType::MultiLineString,
            WkbInner::MultiPolygon(_) => GeometryType::MultiPolygon,
            WkbInner::GeometryCollection(_) => GeometryType::GeometryCollection,
        }
    }

    /// Return the underlying buffer of this WKB geometry, trimmed to the
    /// bytes the geometry actually consumed.
    #[inline]
    pub fn buf(&self) -> (r: &'a [u8])
        ensures
            r@ == self.spec_buf(),
    {
        self.buf
    }

    /// The number of bytes in this object, including any header.
    pub fn size(&self) -> (r: u64)
        requires
            self.wf(),
        ensures
            r == self.spec_buf().len(),
    {
        match &self.inner {
            WkbInner::Point(g) => g.size(),
            WkbInner::LineString(g) => g.size(),
            WkbInner::Polygon(g) => g.size(),
            WkbInner::MultiPoint(g) => g.size(),
            WkbInner::MultiLineString(g) => g.size(),
            WkbInner::MultiPolygon(g) => g.size(),
            WkbInner::GeometryCollection(g) => g.size(),
        }
    }

    /// The concrete typed view of this geometry: the one narrowing
    /// operation a caller pattern-matches on.
    #[inline]
    pub fn as_type(&self) -> (r: &WkbInner<'a>)
        ensures
            r == self.spec_inner(),
            self.wf() ==> r.wf() && r.spec_model() == self@,
    {
        &self.inner
    }
}

/// The view of a parsed geometry is its model.
pub proof fn lemma_wkb_view<'a>(w: Wkb<'a>)
    ensures
        w@ == w.spec_model(),
{
}

} // verus!
