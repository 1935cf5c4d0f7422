//! Owned geometry values: what the writer serializes.
//!
//! Ordinates are carried as the raw 64-bit IEEE-754 patterns they will be
//! stored as on the wire.

use vstd::prelude::*;

use crate::common::Dimension;
use crate::model::GeomModel;
use crate::model::GeometryCollectionModel;
use crate::model::LineStringModel;
use crate::model::MultiLineStringModel;
use crate::model::MultiPointModel;
use crate::model::MultiPolygonModel;
use crate::model::PointModel;
use crate::model::PolygonModel;

verus! {

/// An owned coordinate: two to four ordinates as raw bit patterns.
#[derive(Debug, Clone, PartialEq)]
pub struct OwnedCoord {
    pub ords: Vec<u64>,
}

impl View for OwnedCoord {
    type V = Seq<u64>;

    open spec fn view(&self) -> Seq<u64> {
        self.ords@
    }
}

/// The coordinates a run of owned coordinates denotes.
pub open spec fn spec_coord_views(s: Seq<OwnedCoord>) -> Seq<Seq<u64>> {
    Seq::new(s.len(), |i: int| s[i]@)
}

/// The coordinate runs a run of owned rings denotes.
pub open spec fn spec_owned_ring_views(s: Seq<Vec<OwnedCoord>>) -> Seq<Seq<Seq<u64>>> {
    Seq::new(s.len(), |i: int| spec_coord_views(s[i]@))
}

/// The ring runs a run of owned polygons denotes.
pub open spec fn spec_owned_poly_views(s: Seq<Vec<Vec<OwnedCoord>>>) -> Seq<Seq<Seq<Seq<u64>>>> {
    Seq::new(s.len(), |i: int| spec_owned_ring_views(s[i]@))
}

/// An owned Point: one coordinate, or none for POINT EMPTY.
#[derive(Debug, Clone, PartialEq)]
pub struct OwnedPoint {
    pub dim: Dimension,
    pub coord: Option<OwnedCoord>,
}

impl View for OwnedPoint {
    type V = PointModel;

    open spec fn view(&self) -> PointModel {
        PointModel {
            dim: self.dim,
            coord: match self.coord {
                Some(c) => Some(c@),
                None => None,
            },
        }
    }
}

/// The Points a run of owned points denotes.
pub open spec fn spec_owned_point_views(s: Seq<OwnedPoint>) -> Seq<PointModel> {
    Seq::new(s.len(), |i: int| s[i]@)
}

/// An owned LineString: an ordered run of coordinates.
#[derive(Debug, Clone, PartialEq)]
pub struct OwnedLineString {
    pub dim: Dimension,
    pub coords: Vec<OwnedCoord>,
}

impl View for OwnedLineString {
    type V = LineStringModel;

    open spec fn view(&self) -> LineStringModel {
        LineStringModel { dim: self.dim, coords: spec_coord_views(self.coords@) }
    }
}

/// An owned Polygon: an ordered run of rings, the first the exterior.
#[derive(Debug, Clone, PartialEq)]
pub struct OwnedPolygon {
    pub dim: Dimension,
    pub rings: Vec<Vec<OwnedCoord>>,
}

impl View for OwnedPolygon {
    type V = PolygonModel;

    open spec fn view(&self) -> PolygonModel {
        PolygonModel { dim: self.dim, rings: spec_owned_ring_views(self.rings@) }
    }
}

/// An owned MultiPoint.
#[derive(Debug, Clone, PartialEq)]
pub struct OwnedMultiPoint {
    pub dim: Dimension,
    pub points: Vec<OwnedPoint>,
}

impl View for OwnedMultiPoint {
    type V = MultiPointModel;

    open spec fn view(&self) -> MultiPointModel {
        MultiPointModel { dim: self.dim, points: spec_owned_point_views(self.points@) }
    }
}

/// An owned MultiLineString.
#[derive(Debug, Clone, PartialEq)]
pub struct OwnedMultiLineString {
    pub dim: Dimension,
    pub lines: Vec<Vec<OwnedCoord>>,
}

impl View for OwnedMultiLineString {
    type V = MultiLineStringModel;

    open spec fn view(&self) -> MultiLineStringModel {
        MultiLineStringModel { dim: self.dim, lines: spec_owned_ring_views(self.lines@) }
    }
}

/// An owned MultiPolygon.
#[derive(Debug, Clone, PartialEq)]
pub struct OwnedMultiPolygon {
    pub dim: Dimension,
    pub polygons: Vec<Vec<Vec<OwnedCoord>>>,
}

impl View for OwnedMultiPolygon {
    type V = MultiPolygonModel;

    open spec fn view(&self) -> MultiPolygonModel {
        MultiPolygonModel { dim: self.dim, polygons: spec_owned_poly_views(self.polygons@) }
    }
}

/// An owned GeometryCollection: heterogeneous members.
#[derive(Debug, PartialEq)]
pub struct OwnedGeometryCollection {
    pub dim: Dimension,
    pub geometries: Vec<OwnedGeometry>,
}

/// An owned geometry of any of the seven kinds.
#[derive(Debug, PartialEq)]
pub enum OwnedGeometry {
    Point(OwnedPoint),
    LineString(OwnedLineString),
    Polygon(OwnedPolygon),
    MultiPoint(OwnedMultiPoint),
    MultiLineString(OwnedMultiLineString),
    MultiPolygon(OwnedMultiPolygon),
    GeometryCollection(OwnedGeometryCollection),
}

impl OwnedGeometry {
    /// The geometry this owned value denotes.
    pub open spec fn spec_model(&self) -> GeomModel
        decreases self,
    {
        match self {
            OwnedGeometry::Point(g) => GeomModel::Point(g@),
            OwnedGeometry::LineString(g) => GeomModel::LineString(g@),
            OwnedGeometry::Polygon(g) => GeomModel::Polygon(g@),
            OwnedGeometry::MultiPoint(g) => GeomModel::MultiPoint(g@),
            OwnedGeometry::MultiLineString(g) => GeomModel::MultiLineString(g@),
            OwnedGeometry::MultiPolygon(g) => GeomModel::MultiPolygon(g@),
            OwnedGeometry::GeometryCollection(g) => GeomModel::GeometryCollection(g.spec_model()),
        }
    }
}

impl View for OwnedGeometry {
    type V = GeomModel;

    open spec fn view(&self) -> GeomModel {
        self.spec_model()
    }
}

/// The geometries a run of owned geometries denotes.
pub open spec fn spec_owned_geom_views(s: Seq<OwnedGeometry>) -> Seq<GeomModel>
    decreases s,
{
    Seq::new(
        s.len(),
        |i: int|
            if 0 <= i < s.len() {
                s[i].spec_model()
            } else {
                GeomModel::Point(PointModel { dim: Dimension::Xy, coord: None })
            },
    )
}

impl OwnedGeometryCollection {
    /// The collection this owned value denotes.
    pub open spec fn spec_model(&self) -> GeometryCollectionModel
        decreases self,
    {
        GeometryCollectionModel {
            dim: self.dim,
            geometries: spec_owned_geom_views(self.geometries@),
        }
    }
}

impl View for OwnedGeometryCollection {
    type V = GeometryCollectionModel;

    open spec fn view(&self) -> GeometryCollectionModel {
        self.spec_model()
    }
}

} // verus!
