//! Write geometries to Well-Known Binary encoding.
//!
//! Every function appends to the caller's byte vector. A function fails only
//! when a declared element count cannot be represented on the wire as a
//! `u32`; on such a failure the vector may be left holding a partial prefix.

use vstd::prelude::*;

use crate::common::Dimension;
use crate::common::Endianness;
use crate::common::GeometryType;
use crate::common::WkbType;
use crate::common::spec_dim_size;
use crate::error::{WkbError, WkbResult};
use crate::geom::OwnedCoord;
use crate::geom::OwnedGeometry;
use crate::geom::OwnedGeometryCollection;
use crate::geom::OwnedLineString;
use crate::geom::OwnedMultiLineString;
use crate::geom::OwnedMultiPoint;
use crate::geom::OwnedMultiPolygon;
use crate::geom::OwnedPoint;
use crate::geom::OwnedPolygon;
use crate::geom::spec_coord_views;
use crate::geom::spec_owned_geom_views;
use crate::geom::spec_owned_point_views;
use crate::geom::spec_owned_poly_views;
use crate::geom::spec_owned_ring_views;
use crate::laws::lemma_enc_coords_push;
use crate::laws::lemma_enc_geoms_push;
use crate::laws::lemma_enc_ords_push;
use crate::laws::lemma_enc_points_push;
use crate::laws::lemma_enc_polys_push;
use crate::laws::lemma_enc_rings_push;
use crate::model::spec_enc;
use crate::model::spec_enc_coords;
use crate::model::spec_enc_geoms;
use crate::model::spec_enc_header;
use crate::model::spec_enc_ls_body;
use crate::model::spec_enc_ords;
use crate::model::spec_enc_point;
use crate::model::spec_enc_points;
use crate::model::spec_enc_poly_body;
use crate::model::spec_enc_polys;
use crate::model::spec_enc_rings;
use crate::model::spec_nan_coord;
use crate::model::spec_wf_counts;
use crate::wire::F64_NAN_BITS;
use crate::wire::put_u32;
use crate::wire::put_u64;

verus! {

/// Options for writing geometries to WKB.
#[derive(Debug, Clone, Default)]
pub struct WriteOptions {
    /// The byte order to use when writing the WKB.
    pub endianness: Endianness,
}

/// Append the one-byte marker and four-byte ISO type code of a geometry.
fn write_header(out: &mut Vec<u8>, kind: GeometryType, dim: Dimension, bo: Endianness)
    ensures
        final(out)@ == old(out)@ + spec_enc_header(kind, dim, bo),
{
    let t = match kind {
        GeometryType::Point => WkbType::Point(dim),
        GeometryType::LineString => WkbType::LineString(dim),
        GeometryType::Polygon => WkbType::Polygon(dim),
        GeometryType::MultiPoint => WkbType::MultiPoint(dim),
        GeometryType::MultiLineString => WkbType::MultiLineString(dim),
        GeometryType::MultiPolygon => WkbType::MultiPolygon(dim),
        GeometryType::GeometryCollection => WkbType::GeometryCollection(dim),
    };
    out.push(bo.marker_byte());
    put_u32(out, t.as_geometry_code().0, bo);
    assert(out@ =~= old(out)@ + spec_enc_header(kind, dim, bo));
}

/// Append the ordinates of one coordinate.
fn write_coord(out: &mut Vec<u8>, coord: &OwnedCoord, bo: Endianness)
    ensures
        final(out)@ == old(out)@ + spec_enc_ords(coord@, bo),
{
    let n = coord.ords.len();
    let mut i: usize = 0;
    while i < n
        invariant
            i <= n,
            n == coord.ords@.len(),
            out@ == old(out)@ + spec_enc_ords(coord.ords@.take(i as int), bo),
        decreases n - i,
    {
        proof {
            lemma_enc_ords_push(coord.ords@.take(i as int), coord.ords@[i as int], bo);
            assert(coord.ords@.take(i as int).push(coord.ords@[i as int]) =~= coord.ords@.take(
                i as int + 1,
            ));
        }
        put_u64(out, coord.ords[i], bo);
        i = i + 1;
    }
    proof {
        assert(coord.ords@.take(n as int) =~= coord.ords@);
    }
}

/// Append the all-NaN coordinate that denotes POINT EMPTY.
fn write_nan_coord(out: &mut Vec<u8>, dim: Dimension, bo: Endianness)
    ensures
        final(out)@ == old(out)@ + spec_enc_ords(spec_nan_coord(dim), bo),
{
    let n = dim.size();
    let ghost c = spec_nan_coord(dim);
    let mut i: usize = 0;
    while i < n
        invariant
            i <= n,
            n == c.len(),
            c == spec_nan_coord(dim),
            out@ == old(out)@ + spec_enc_ords(c.take(i as int), bo),
        decreases n - i,
    {
        proof {
            lemma_enc_ords_push(c.take(i as int), F64_NAN_BITS, bo);
            assert(c.take(i as int).push(F64_NAN_BITS) =~= c.take(i as int + 1));
        }
        put_u64(out, F64_NAN_BITS, bo);
        i = i + 1;
    }
    proof {
        assert(c.take(n as int) =~= c);
    }
}

/// Append a headerless LineString body: coordinate count, then coordinates.
fn write_ls_body(out: &mut Vec<u8>, coords: &Vec<OwnedCoord>, bo: Endianness) -> (r: WkbResult<()>)
    ensures
        r is Ok <==> coords@.len() <= u32::MAX,
        r is Ok ==> final(out)@ == old(out)@ + spec_enc_ls_body(spec_coord_views(coords@), bo),
{
    let n = coords.len();
    if n as u64 > u32::MAX as u64 {
        return Err(WkbError::InvalidCount(n as u64));
    }
    put_u32(out, n as u32, bo);
    let ghost cs = spec_coord_views(coords@);
    let ghost start = out@;
    let mut i: usize = 0;
    while i < n
        invariant
            i <= n,
            n == coords@.len(),
            cs == spec_coord_views(coords@),
            out@ == start + spec_enc_coords(cs.take(i as int), bo),
        decreases n - i,
    {
        proof {
            lemma_enc_coords_push(cs.take(i as int), cs[i as int], bo);
            assert(cs.take(i as int).push(cs[i as int]) =~= cs.take(i as int + 1));
            assert(coords@[i as int]@ == cs[i as int]);
        }
        write_coord(out, &coords[i], bo);
        i = i + 1;
    }
    proof {
        assert(cs.take(n as int) =~= cs);
        assert(out@ =~= old(out)@ + spec_enc_ls_body(cs, bo));
    }
    Ok(())
}

/// Write a Point geometry encoded as WKB; an empty point is written as
/// all-NaN ordinates.
pub fn write_point(out: &mut Vec<u8>, geom: &OwnedPoint, options: &WriteOptions) -> (r: WkbResult<
    (),
>)
    ensures
        r is Ok,
        final(out)@ == old(out)@ + spec_enc_point(geom@, options.endianness),
{
    let bo = options.endianness;
    write_header(out, GeometryType::Point, geom.dim, bo);
    match &geom.coord {
        Some(c) => write_coord(out, c, bo),
        None => write_nan_coord(out, geom.dim, bo),
    }
    proof {
        assert(out@ =~= old(out)@ + spec_enc_point(geom@, bo));
    }
    Ok(())
}

/// Write a LineString geometry encoded as WKB.
pub fn write_line_string(out: &mut Vec<u8>, geom: &OwnedLineString, options: &WriteOptions) -> (r:
    WkbResult<()>)
    ensures
        r is Ok <==> spec_wf_counts(crate::model::GeomModel::LineString(geom@)),
        r is Ok ==> final(out)@ == old(out)@ + spec_enc(
            crate::model::GeomModel::LineString(geom@),
            options.endianness,
        ),
{
    let bo = options.endianness;
    write_header(out, GeometryType::LineString, geom.dim, bo);
    write_ls_body(out, &geom.coords, bo)?;
    proof {
        assert(out@ =~= old(out)@ + spec_enc(crate::model::GeomModel::LineString(geom@), bo));
    }
    Ok(())
}

/// Append a headerless Polygon body: ring count, then rings.
fn write_poly_body(out: &mut Vec<u8>, rings: &Vec<Vec<OwnedCoord>>, bo: Endianness) -> (r:
    WkbResult<()>)
    ensures
        r is Ok <==> spec_owned_ring_views(rings@).len() <= u32::MAX && (forall|i: int|
            0 <= i < spec_owned_ring_views(rings@).len() ==> (#[trigger] spec_owned_ring_views(
                rings@,
            )[i]).len() <= u32::MAX),
        r is Ok ==> final(out)@ == old(out)@ + spec_enc_poly_body(
            spec_owned_ring_views(rings@),
            bo,
        ),
{
    let n = rings.len();
    let ghost rs = spec_owned_ring_views(rings@);
    if n as u64 > u32::MAX as u64 {
        return Err(WkbError::InvalidCount(n as u64));
    }
    put_u32(out, n as u32, bo);
    let ghost start = out@;
    let mut i: usize = 0;
    while i < n
        invariant
            i <= n,
            n == rings@.len(),
            rs == spec_owned_ring_views(rings@),
            forall|k: int| 0 <= k < i ==> (#[trigger] rs[k]).len() <= u32::MAX,
            out@ == start + spec_enc_rings(rs.take(i as int), bo),
        decreases n - i,
    {
        proof {
            lemma_enc_rings_push(rs.take(i as int), rs[i as int], bo);
            assert(rs.take(i as int).push(rs[i as int]) =~= rs.take(i as int + 1));
            assert(spec_coord_views(rings@[i as int]@) == rs[i as int]);
        }
        match write_ls_body(out, &rings[i], bo) {
            Ok(()) => {
                proof {
                    assert(rs[i as int].len() == rings@[i as int]@.len());
                }
            },
            Err(e) => {
                proof {
                    assert(rs[i as int].len() == rings@[i as int]@.len());
                    assert(!(rs[i as int].len() <= u32::MAX));
                }
                return Err(e);
            },
        }
        proof {
            assert(out@ =~= start + spec_enc_rings(rs.take(i as int + 1), bo));
        }
        i = i + 1;
    }
    proof {
        assert(rs.take(n as int) =~= rs);
        assert(out@ =~= old(out)@ + spec_enc_poly_body(rs, bo));
    }
    Ok(())
}

/// Write a Polygon geometry encoded as WKB.
pub fn write_polygon(out: &mut Vec<u8>, geom: &OwnedPolygon, options: &WriteOptions) -> (r:
    WkbResult<()>)
    ensures
        r is Ok <==> spec_wf_counts(crate::model::GeomModel::Polygon(geom@)),
        r is Ok ==> final(out)@ == old(out)@ + spec_enc(
            crate::model::GeomModel::Polygon(geom@),
            options.endianness,
        ),
{
    let bo = options.endianness;
    write_header(out, GeometryType::Polygon, geom.dim, bo);
    match write_poly_body(out, &geom.rings, bo) {
        Ok(()) => {},
        Err(e) => {
            return Err(e);
        },
    }
    proof {
        assert(out@ =~= old(out)@ + spec_enc(crate::model::GeomModel::Polygon(geom@), bo));
    }
    Ok(())
}

/// Write a MultiPoint geometry encoded as WKB: each member is a full framed
/// Point.
#[verifier::rlimit(100)]
#[verifier::spinoff_prover]
pub fn write_multi_point(out: &mut Vec<u8>, geom: &OwnedMultiPoint, options: &WriteOptions) -> (r:
    WkbResult<()>)
    ensures
        r is Ok <==> spec_wf_counts(crate::model::GeomModel::MultiPoint(geom@)),
        r is Ok ==> final(out)@ == old(out)@ + spec_enc(
            crate::model::GeomModel::MultiPoint(geom@),
            options.endianness,
        ),
{
    let bo = options.endianness;
    write_header(out, GeometryType::MultiPoint, geom.dim, bo);
    let n = geom.points.len();
    if n as u64 > u32::MAX as u64 {
        return Err(WkbError::InvalidCount(n as u64));
    }
    put_u32(out, n as u32, bo);
    let ghost ps = spec_owned_point_views(geom.points@);
    let ghost start = out@;
    let mut i: usize = 0;
    while i < n
        invariant
            i <= n,
            n == geom.points@.len(),
            bo == options.endianness,
            ps == spec_owned_point_views(geom.points@),
            out@ == start + spec_enc_points(ps.take(i as int), bo),
        decreases n - i,
    {
        let p_i = &geom.points[i];
        proof {
            lemma_enc_points_push(ps.take(i as int), ps[i as int], bo);
            assert(ps.take(i as int).push(ps[i as int]) =~= ps.take(i as int + 1));
            assert(p_i@ == ps[i as int]);
        }
        let ghost before = out@;
        let write_result = write_point(out, p_i, options);
        proof {
            assert(write_result is Ok);
            assert(out@ == before + spec_enc_point(p_i@, options.endianness));
            assert(out@ == before + spec_enc_point(ps[i as int], bo));
            assert(out@ =~= start + spec_enc_points(ps.take(i as int + 1), bo));
        }
        i = i + 1;
    }
    proof {
        assert(ps.take(n as int) =~= ps);
        assert(out@ =~= old(out)@ + spec_enc(crate::model::GeomModel::MultiPoint(geom@), bo));
    }
    Ok(())
}

/// Write a MultiLineString geometry encoded as WKB: each member is a
/// headerless LineString body.
pub fn write_multi_line_string(
    out: &mut Vec<u8>,
    geom: &OwnedMultiLineString,
    options: &WriteOptions,
) -> (r: WkbResult<()>)
    ensures
        r is Ok <==> spec_wf_counts(crate::model::GeomModel::MultiLineString(geom@)),
        r is Ok ==> final(out)@ == old(out)@ + spec_enc(
            crate::model::GeomModel::MultiLineString(geom@),
            options.endianness,
        ),
{
    let bo = options.endianness;
    write_header(out, GeometryType::MultiLineString, geom.dim, bo);
    let n = geom.lines.len();
    if n as u64 > u32::MAX as u64 {
        return Err(WkbError::InvalidCount(n as u64));
    }
    put_u32(out, n as u32, bo);
    let ghost ls = spec_owned_ring_views(geom.lines@);
    let ghost start = out@;
    let mut i: usize = 0;
    while i < n
        invariant
            i <= n,
            n == geom.lines@.len(),
            ls == spec_owned_ring_views(geom.lines@),
            forall|k: int| 0 <= k < i ==> (#[trigger] geom.lines@[k])@.len() <= u32::MAX,
            out@ == start + spec_enc_rings(ls.take(i as int), bo),
        decreases n - i,
    {
        proof {
            lemma_enc_rings_push(ls.take(i as int), ls[i as int], bo);
            assert(ls.take(i as int).push(ls[i as int]) =~= ls.take(i as int + 1));
            assert(spec_coord_views(geom.lines@[i as int]@) == ls[i as int]);
        }
        write_ls_body(out, &geom.lines[i], bo)?;
        i = i + 1;
    }
    proof {
        assert(ls.take(n as int) =~= ls);
        assert(out@ =~= old(out)@ + spec_enc(crate::model::GeomModel::MultiLineString(geom@), bo));
    }
    Ok(())
}

/// Write a MultiPolygon geometry encoded as WKB: each member is a headerless
/// Polygon body.
pub fn write_multi_polygon(out: &mut Vec<u8>, geom: &OwnedMultiPolygon, options: &WriteOptions) -> (r:
    WkbResult<()>)
    ensures
        r is Ok <==> spec_wf_counts(crate::model::GeomModel::MultiPolygon(geom@)),
        r is Ok ==> final(out)@ == old(out)@ + spec_enc(
            crate::model::GeomModel::MultiPolygon(geom@),
            options.endianness,
        ),
{
    let bo = options.endianness;
    write_header(out, GeometryType::MultiPolygon, geom.dim, bo);
    let n = geom.polygons.len();
    if n as u64 > u32::MAX as u64 {
        return Err(WkbError::InvalidCount(n as u64));
    }
    put_u32(out, n as u32, bo);
    let ghost ps = spec_owned_poly_views(geom.polygons@);
    let ghost start = out@;
    let mut i: usize = 0;
    while i < n
        invariant
            i <= n,
            n == geom.polygons@.len(),
            ps == spec_owned_poly_views(geom.polygons@),
            forall|k: int|
                0 <= k < i ==> (#[trigger] ps[k]).len() <= u32::MAX && (forall|j: int|
                    0 <= j < ps[k].len() ==> (#[trigger] ps[k][j]).len() <= u32::MAX),
            out@ == start + spec_enc_polys(ps.take(i as int), bo),
        decreases n - i,
    {
        let poly_i = &geom.polygons[i];
        proof {
            lemma_enc_polys_push(ps.take(i as int), ps[i as int], bo);
            assert(ps.take(i as int).push(ps[i as int]) =~= ps.take(i as int + 1));
            assert(spec_owned_ring_views(poly_i@) == ps[i as int]);
        }
        let ghost before = out@;
        match write_poly_body(out, poly_i, bo) {
            Ok(()) => {
                proof {
                    assert((#[trigger] ps[i as int]).len() <= u32::MAX && forall|j: int|
                        0 <= j < ps[i as int].len() ==> (#[trigger] ps[i as int][j]).len()
                            <= u32::MAX);
                }
            },
            Err(e) => {
                proof {
                    assert(!(ps[i as int].len() <= u32::MAX && forall|j: int|
                        0 <= j < ps[i as int].len() ==> (#[trigger] ps[i as int][j]).len()
                            <= u32::MAX));
                }
                return Err(e);
            },
        }
        proof {
            assert(out@ == before + spec_enc_poly_body(ps[i as int], bo));
            assert(out@ =~= start + spec_enc_polys(ps.take(i as int + 1), bo));
        }
        i = i + 1;
    }
    proof {
        assert(ps.take(n as int) =~= ps);
        assert(out@ =~= old(out)@ + spec_enc(crate::model::GeomModel::MultiPolygon(geom@), bo));
    }
    Ok(())
}

/// Write a GeometryCollection encoded as WKB: each member is a full framed
/// geometry of its own.
#[verifier::rlimit(100)]
#[verifier::spinoff_prover]
pub fn write_geometry_collection(
    out: &mut Vec<u8>,
    geom: &OwnedGeometryCollection,
    options: &WriteOptions,
) -> (r: WkbResult<()>)
    ensures
        r is Ok <==> spec_wf_counts(crate::model::GeomModel::GeometryCollection(geom@)),
        r is Ok ==> final(out)@ == old(out)@ + spec_enc(
            crate::model::GeomModel::GeometryCollection(geom@),
            options.endianness,
        ),
    decreases *geom, 0int,
{
    let bo = options.endianness;
    write_header(out, GeometryType::GeometryCollection, geom.dim, bo);
    let n = geom.geometries.len();
    if n as u64 > u32::MAX as u64 {
        return Err(WkbError::InvalidCount(n as u64));
    }
    put_u32(out, n as u32, bo);
    let ghost gs = spec_owned_geom_views(geom.geometries@);
    let ghost start = out@;
    let mut i: usize = 0;
    while i < n
        invariant
            i <= n,
            n == geom.geometries@.len(),
            bo == options.endianness,
            gs == spec_owned_geom_views(geom.geometries@),
            forall|k: int| 0 <= k < i ==> spec_wf_counts(#[trigger] gs[k]),
            out@ == start + spec_enc_geoms(gs.take(i as int), bo),
        decreases n - i,
    {
        let g_i = &geom.geometries[i];
        proof {
            lemma_enc_geoms_push(gs.take(i as int), gs[i as int], bo);
            assert(gs.take(i as int).push(gs[i as int]) =~= gs.take(i as int + 1));
            assert(g_i@ == gs[i as int]);
        }
        let ghost before = out@;
        match write_geometry(out, g_i, options) {
            Ok(()) => {
                proof {
                    assert(spec_wf_counts(#[trigger] gs[i as int]));
                }
            },
            Err(e) => {
                proof {
                    assert(!spec_wf_counts(gs[i as int]));
                }
                return Err(e);
            },
        }
        proof {
            assert(out@ == before + spec_enc(g_i@, options.endianness));
            assert(out@ == before + spec_enc(gs[i as int], bo));
            assert(out@ =~= start + spec_enc_geoms(gs.take(i as int + 1), bo));
        }
        i = i + 1;
    }
    proof {
        assert(gs.take(n as int) =~= gs);
        assert(out@ =~= old(out)@ + spec_enc(
            crate::model::GeomModel::GeometryCollection(geom@),
            bo,
        ));
    }
    Ok(())
}

/// Write a geometry of any kind encoded as WKB.
pub fn write_geometry(out: &mut Vec<u8>, geom: &OwnedGeometry, options: &WriteOptions) -> (r:
    WkbResult<()>)
    ensures
        r is Ok <==> spec_wf_counts(geom@),
        r is Ok ==> final(out)@ == old(out)@ + spec_enc(geom@, options.endianness),
    decreases *geom, 1int,
{
    match geom {
        OwnedGeometry::Point(g) => write_point(out, g, options),
        OwnedGeometry::LineString(g) => write_line_string(out, g, options),
        OwnedGeometry::Polygon(g) => write_polygon(out, g, options),
        OwnedGeometry::MultiPoint(g) => write_multi_point(out, g, options),
        OwnedGeometry::MultiLineString(g) => write_multi_line_string(out, g, options),
        OwnedGeometry::MultiPolygon(g) => write_multi_polygon(out, g, options),
        OwnedGeometry::GeometryCollection(g) => write_geometry_collection(out, g, options),
    }
}

/// The number of bytes a Point of the given dimension takes up when encoded
/// as WKB.
pub fn point_wkb_size(dim: Dimension) -> (r: usize)
    ensures
        r == 5 + spec_dim_size(dim) * 8,
{
    let header = 1 + 4;
    let coords = dim.size() * 8;
    header + coords
}

/// The number of bytes this geometry will take up when encoded as WKB: the
/// length of the byte vector [`write_geometry`] appends.
pub fn geometry_wkb_size(geom: &OwnedGeometry, options: &WriteOptions) -> (r: WkbResult<usize>)
    ensures
        r is Ok <==> spec_wf_counts(geom@),
        r is Ok ==> r.unwrap() == spec_enc(geom@, options.endianness).len(),
{
    let mut scratch: Vec<u8> = Vec::new();
    write_geometry(&mut scratch, geom, options)?;
    Ok(scratch.len())
}

} // verus!
