//! Parse buffers containing WKB-encoded geometries.
//!
//! Each of the data structures in this module mirrors one shape of the WKB
//! wire format. Every view is constructed by a single validating pass and
//! afterwards answers its accessors in constant time without re-scanning.

mod coord;
mod geometry;
mod geometry_collection;
mod linearring;
mod linestring;
mod multilinestring;
mod multipoint;
mod multipolygon;
mod point;
mod polygon;
mod util;

pub use crate::common::Dimension;
pub use crate::common::GeometryType;
use vstd::prelude::*;

pub use coord::Coord;
pub use geometry::Wkb;
pub use geometry::WkbInner;
pub use geometry_collection::GeometryCollection;
pub use linearring::LinearRing;
pub use linestring::LineString;
pub use multilinestring::MultiLineString;
pub use multipoint::MultiPoint;
pub use multipolygon::MultiPolygon;
pub use point::Point;
pub use polygon::Polygon;

use crate::error::WkbResult;
use crate::model::spec_decode;

verus! {

/// Parse a WKB byte slice into a geometry.
///
/// This is an alias for [`Wkb::try_new`].
pub fn read_wkb<'a>(buf: &'a [u8]) -> (r: WkbResult<Wkb<'a>>)
    ensures
        match r {
            Ok(w) => {
                &&& w.wf()
                &&& w.spec_buf().len() <= buf@.len()
                &&& w.spec_buf() == buf@.subrange(0, w.spec_buf().len() as int)
                &&& spec_decode(buf@) == Some((w@, w.spec_buf().len() as nat))
            },
            Err(_) => spec_decode(buf@) is None,
        },
{
    Wkb::try_new(buf)
}

} // verus!
