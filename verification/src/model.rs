//! The mathematical model of the wire format: what a byte buffer denotes
//! (`spec_decode`), what a geometry serializes to (`spec_enc`), and the
//! well-formedness that makes the two inverse to each other.
//!
//! Ordinates are modelled as the raw 64-bit IEEE-754 patterns they are
//! stored as; a coordinate is a sequence of ordinates, and every structured
//! value is a sequence of coordinates.

use vstd::prelude::*;

use crate::common::Dimension;
use crate::common::Endianness;
use crate::common::GeometryType;
use crate::common::spec_dim_size;
use crate::common::spec_dim_offset;
use crate::common::spec_kind_base;
use crate::common::spec_header;
use crate::common::spec_header_len;
use crate::common::spec_marker_byte;
use crate::wire::F64_NAN_BITS;
use crate::wire::spec_is_nan64;
use crate::wire::spec_word32;
use crate::wire::spec_word64;
use crate::wire::spec_u32_bytes;
use crate::wire::spec_u64_bytes;

verus! {

/// A Point: a dimension and either one coordinate or none (POINT EMPTY).
#[verifier::ext_equal]
pub struct PointModel {
    pub dim: Dimension,
    pub coord: Option<Seq<u64>>,
}

/// A LineString: an ordered run of coordinates.
#[verifier::ext_equal]
pub struct LineStringModel {
    pub dim: Dimension,
    pub coords: Seq<Seq<u64>>,
}

/// A Polygon: an ordered run of rings, the first of which is the exterior.
#[verifier::ext_equal]
pub struct PolygonModel {
    pub dim: Dimension,
    pub rings: Seq<Seq<Seq<u64>>>,
}

/// A MultiPoint: an ordered run of Points.
#[verifier::ext_equal]
pub struct MultiPointModel {
    pub dim: Dimension,
    pub points: Seq<PointModel>,
}

/// A MultiLineString: an ordered run of coordinate runs.
#[verifier::ext_equal]
pub struct MultiLineStringModel {
    pub dim: Dimension,
    pub lines: Seq<Seq<Seq<u64>>>,
}

/// A MultiPolygon: an ordered run of ring runs.
#[verifier::ext_equal]
pub struct MultiPolygonModel {
    pub dim: Dimension,
    pub polygons: Seq<Seq<Seq<Seq<u64>>>>,
}

/// A GeometryCollection: an ordered run of arbitrary geometries.
#[verifier::ext_equal]
pub struct GeometryCollectionModel {
    pub dim: Dimension,
    pub geometries: Seq<GeomModel>,
}

/// The tagged union over the seven concrete geometry models.
#[verifier::ext_equal]
pub enum GeomModel {
    Point(PointModel),
    LineString(LineStringModel),
    Polygon(PolygonModel),
    MultiPoint(MultiPointModel),
    MultiLineString(MultiLineStringModel),
    MultiPolygon(MultiPolygonModel),
    GeometryCollection(GeometryCollectionModel),
}

impl GeomModel {
    /// The geometry kind of this model.
    pub open spec fn kind(self) -> GeometryType {
        match self {
            GeomModel::Point(_) => GeometryType::Point,
            GeomModel::LineString(_) => GeometryType::LineString,
            GeomModel::Polygon(_) => GeometryType::Polygon,
            GeomModel::MultiPoint(_) => GeometryType::MultiPoint,
            GeomModel::MultiLineString(_) => GeometryType::MultiLineString,
            GeomModel::MultiPolygon(_) => GeometryType::MultiPolygon,
            GeomModel::GeometryCollection(_) => GeometryType::GeometryCollection,
        }
    }

    /// The dimension of this model.
    pub open spec fn dim(self) -> Dimension {
        match self {
            GeomModel::Point(p) => p.dim,
            GeomModel::LineString(l) => l.dim,
            GeomModel::Polygon(p) => p.dim,
            GeomModel::MultiPoint(m) => m.dim,
            GeomModel::MultiLineString(m) => m.dim,
            GeomModel::MultiPolygon(m) => m.dim,
            GeomModel::GeometryCollection(c) => c.dim,
        }
    }
}

// ------------------------------------------------------------------
// Decoding: the value a byte buffer denotes.
// ------------------------------------------------------------------

/// Whether an element count can be represented both on the wire (u32) and in
/// the platform size type.
pub open spec fn spec_count_fits(n: nat) -> bool {
    n <= u32::MAX && n <= usize::MAX
}

/// The coordinate whose ordinates start at byte `base` of `b`.
pub open spec fn spec_coord_at(b: Seq<u8>, base: int, bo: Endianness, dim: Dimension) -> Seq<u64> {
    Seq::new(
        spec_dim_size(dim),
        |i: int| spec_word64(b.subrange(base + 8 * i, base + 8 * i + 8), bo),
    )
}

/// The `n` back-to-back coordinates starting at byte `base` of `b`.
pub open spec fn spec_coords_at(
    b: Seq<u8>,
    base: int,
    bo: Endianness,
    dim: Dimension,
    n: nat,
) -> Seq<Seq<u64>> {
    Seq::new(n, |j: int| spec_coord_at(b, base + spec_dim_size(dim) * 8 * j, bo, dim))
}

/// Whether every ordinate of a coordinate is NaN: the WKB convention for
/// POINT EMPTY.
pub open spec fn spec_all_nan(c: Seq<u64>) -> bool {
    forall|i: int| 0 <= i < c.len() ==> spec_is_nan64(#[trigger] c[i])
}

/// The Point denoted by the coordinate at byte `off` of `b`: all-NaN
/// ordinates denote the empty point.
pub open spec fn spec_point_model(b: Seq<u8>, off: int, bo: Endianness, dim: Dimension) -> PointModel {
    let c = spec_coord_at(b, off, bo, dim);
    PointModel {
        dim,
        coord: if spec_all_nan(c) {
            None
        } else {
            Some(c)
        },
    }
}

/// Decode a headerless LineString body: a u32 coordinate count followed by
/// that many coordinates. Returns the coordinates and the bytes consumed.
pub open spec fn spec_decode_ls_body(b: Seq<u8>, bo: Endianness, dim: Dimension) -> Option<
    (Seq<Seq<u64>>, nat),
> {
    if b.len() < 4 {
        None
    } else {
        let n = spec_word32(b.subrange(0, 4), bo);
        if !spec_count_fits(n as nat) {
            None
        } else if b.len() < 4 + (n as nat) * spec_dim_size(dim) * 8 {
            None
        } else {
            Some((spec_coords_at(b, 4, bo, dim, n as nat), 4 + (n as nat) * spec_dim_size(dim) * 8))
        }
    }
}

/// Decode `n` back-to-back headerless LineString bodies (the rings of a
/// Polygon, or the members of a MultiLineString).
pub open spec fn spec_decode_rings(b: Seq<u8>, bo: Endianness, dim: Dimension, n: nat) -> Option<
    (Seq<Seq<Seq<u64>>>, nat),
>
    decreases n,
{
    if n == 0 {
        Some((Seq::empty(), 0))
    } else {
        match spec_decode_ls_body(b, bo, dim) {
            None => None,
            Some((ring, used)) => if used > b.len() {
                None
            } else {
                match spec_decode_rings(b.skip(used as int), bo, dim, (n - 1) as nat) {
                    None => None,
                    Some((rest, used2)) => Some((seq![ring] + rest, used + used2)),
                }
            },
        }
    }
}

/// Decode a headerless Polygon body: a u32 ring count followed by that many
/// rings.
pub open spec fn spec_decode_poly_body(b: Seq<u8>, bo: Endianness, dim: Dimension) -> Option<
    (Seq<Seq<Seq<u64>>>, nat),
> {
    if b.len() < 4 {
        None
    } else {
        let n = spec_word32(b.subrange(0, 4), bo);
        if !spec_count_fits(n as nat) {
            None
        } else {
            match spec_decode_rings(b.skip(4), bo, dim, n as nat) {
                None => None,
                Some((rings, used)) => Some((rings, 4 + used)),
            }
        }
    }
}

/// Decode `n` back-to-back headerless Polygon bodies (the members of a
/// MultiPolygon).
pub open spec fn spec_decode_polys(b: Seq<u8>, bo: Endianness, dim: Dimension, n: nat) -> Option<
    (Seq<Seq<Seq<Seq<u64>>>>, nat),
>
    decreases n,
{
    if n == 0 {
        Some((Seq::empty(), 0))
    } else {
        match spec_decode_poly_body(b, bo, dim) {
            None => None,
            Some((poly, used)) => if used > b.len() {
                None
            } else {
                match spec_decode_polys(b.skip(used as int), bo, dim, (n - 1) as nat) {
                    None => None,
                    Some((rest, used2)) => Some((seq![poly] + rest, used + used2)),
                }
            },
        }
    }
}

/// Decode a framed Point object: its own five-byte header (an SRID is
/// allowed and skipped), then one coordinate.
pub open spec fn spec_decode_point_obj(b: Seq<u8>) -> Option<(PointModel, nat)> {
    match spec_header(b) {
        None => None,
        Some(h) => {
            if h.kind != GeometryType::Point {
                None
            } else {
                let off = spec_header_len(h);
                if b.len() < off + spec_dim_size(h.dim) * 8 {
                    None
                } else {
                    Some(
                        (
                            spec_point_model(b, off as int, h.byte_order, h.dim),
                            off + spec_dim_size(h.dim) * 8,
                        ),
                    )
                }
            }
        },
    }
}

/// Whether `b` starts with the header a MultiPoint member must carry: a
/// plain five-byte Point header, no SRID, the parent's dimension.
pub open spec fn spec_mp_child_ok(b: Seq<u8>, dim: Dimension) -> bool {
    spec_header(b) matches Some(h) && h.kind == GeometryType::Point && !h.has_srid && h.dim == dim
}

/// Decode `n` back-to-back framed Point objects (the members of a
/// MultiPoint).
pub open spec fn spec_decode_points(b: Seq<u8>, dim: Dimension, n: nat) -> Option<
    (Seq<PointModel>, nat),
>
    decreases n,
{
    if n == 0 {
        Some((Seq::empty(), 0))
    } else if !spec_mp_child_ok(b, dim) {
        None
    } else {
        match spec_decode_point_obj(b) {
            None => None,
            Some((p, used)) => if used > b.len() {
                None
            } else {
                match spec_decode_points(b.skip(used as int), dim, (n - 1) as nat) {
                    None => None,
                    Some((rest, used2)) => Some((seq![p] + rest, used + used2)),
                }
            },
        }
    }
}

/// Decode a framed LineString object: header, optional SRID, then a
/// LineString body.
pub open spec fn spec_decode_ls_obj(b: Seq<u8>) -> Option<(LineStringModel, nat)> {
    match spec_header(b) {
        None => None,
        Some(h) => {
            if h.kind != GeometryType::LineString {
                None
            } else {
                let off = spec_header_len(h);
                if b.len() < off {
                    None
                } else {
                    match spec_decode_ls_body(b.skip(off as int), h.byte_order, h.dim) {
                        None => None,
                        Some((cs, used)) => Some(
                            (LineStringModel { dim: h.dim, coords: cs }, off + used),
                        ),
                    }
                }
            }
        },
    }
}

/// Decode a framed Polygon object.
pub open spec fn spec_decode_poly_obj(b: Seq<u8>) -> Option<(PolygonModel, nat)> {
    match spec_header(b) {
        None => None,
        Some(h) => {
            if h.kind != GeometryType::Polygon {
                None
            } else {
                let off = spec_header_len(h);
                if b.len() < off {
                    None
                } else {
                    match spec_decode_poly_body(b.skip(off as int), h.byte_order, h.dim) {
                        None => None,
                        Some((rings, used)) => Some(
                            (PolygonModel { dim: h.dim, rings }, off + used),
                        ),
                    }
                }
            }
        },
    }
}

/// Decode a framed MultiPoint object: header, member count, then that many
/// framed Points.
pub open spec fn spec_decode_mp_obj(b: Seq<u8>) -> Option<(MultiPointModel, nat)> {
    match spec_header(b) {
        None => None,
        Some(h) => {
            if h.kind != GeometryType::MultiPoint {
                None
            } else {
                let off = spec_header_len(h);
                if b.len() < off + 4 {
                    None
                } else {
                    let n = spec_word32(b.subrange(off as int, off as int + 4), h.byte_order);
                    if !spec_count_fits(n as nat) {
                        None
                    } else {
                        match spec_decode_points(b.skip(off as int + 4), h.dim, n as nat) {
                            None => None,
                            Some((ps, used)) => Some(
                                (MultiPointModel { dim: h.dim, points: ps }, off + 4 + used),
                            ),
                        }
                    }
                }
            }
        },
    }
}

/// Decode a framed MultiLineString object: header, member count, then that
/// many headerless LineString bodies in the parent's byte order and
/// dimension.
pub open spec fn spec_decode_mls_obj(b: Seq<u8>) -> Option<(MultiLineStringModel, nat)> {
    match spec_header(b) {
        None => None,
        Some(h) => {
            if h.kind != GeometryType::MultiLineString {
                None
            } else {
                let off = spec_header_len(h);
                if b.len() < off + 4 {
                    None
                } else {
                    let n = spec_word32(b.subrange(off as int, off as int + 4), h.byte_order);
                    if !spec_count_fits(n as nat) {
                        None
                    } else {
                        match spec_decode_rings(b.skip(off as int + 4), h.byte_order, h.dim, n as nat) {
                            None => None,
                            Some((ls, used)) => Some(
                                (MultiLineStringModel { dim: h.dim, lines: ls }, off + 4 + used),
                            ),
                        }
                    }
                }
            }
        },
    }
}

/// Decode a framed MultiPolygon object: header, member count, then that many
/// headerless Polygon bodies in the parent's byte order and dimension.
pub open spec fn spec_decode_mpoly_obj(b: Seq<u8>) -> Option<(MultiPolygonModel, nat)> {
    match spec_header(b) {
        None => None,
        Some(h) => {
            if h.kind != GeometryType::MultiPolygon {
                None
            } else {
                let off = spec_header_len(h);
                if b.len() < off + 4 {
                    None
                } else {
                    let n = spec_word32(b.subrange(off as int, off as int + 4), h.byte_order);
                    if !spec_count_fits(n as nat) {
                        None
                    } else {
                        match spec_decode_polys(b.skip(off as int + 4), h.byte_order, h.dim, n as nat) {
                            None => None,
                            Some((ps, used)) => Some(
                                (MultiPolygonModel { dim: h.dim, polygons: ps }, off + 4 + used),
                            ),
                        }
                    }
                }
            }
        },
    }
}

/// Decode a framed GeometryCollection object: header, member count, then
/// that many fully self-described geometries.
pub open spec fn spec_decode_gc_obj(b: Seq<u8>) -> Option<(GeometryCollectionModel, nat)>
    decreases b.len(), 2int,
{
    match spec_header(b) {
        None => None,
        Some(h) => {
            if h.kind != GeometryType::GeometryCollection {
                None
            } else {
                let off = spec_header_len(h);
                if b.len() < off + 4 {
                    None
                } else {
                    let n = spec_word32(b.subrange(off as int, off as int + 4), h.byte_order);
                    if !spec_count_fits(n as nat) {
                        None
                    } else {
                        match spec_decode_geoms(b.skip(off as int + 4), n as nat) {
                            None => None,
                            Some((gs, used)) => Some(
                                (
                                    GeometryCollectionModel { dim: h.dim, geometries: gs },
                                    off + 4 + used,
                                ),
                            ),
                        }
                    }
                }
            }
        },
    }
}

/// Decode `n` back-to-back fully self-described geometries (the members of a
/// GeometryCollection).
pub open spec fn spec_decode_geoms(b: Seq<u8>, n: nat) -> Option<(Seq<GeomModel>, nat)>
    decreases b.len(), n + 4,
{
    if n == 0 {
        Some((Seq::empty(), 0))
    } else {
        match spec_decode(b) {
            None => None,
            Some((g, used)) => if used > b.len() {
                None
            } else {
                match spec_decode_geoms(b.skip(used as int), (n - 1) as nat) {
                    None => None,
                    Some((rest, used2)) => Some((seq![g] + rest, used + used2)),
                }
            },
        }
    }
}

/// The geometry denoted by the WKB object at the start of `b`, with the
/// number of bytes it occupies; `None` when the buffer is malformed.
/// Trailing bytes past the object's end are ignored.
pub open spec fn spec_decode(b: Seq<u8>) -> Option<(GeomModel, nat)>
    decreases b.len(), 3int,
{
    match spec_header(b) {
        None => None,
        Some(h) => match h.kind {
            GeometryType::Point => match spec_decode_point_obj(b) {
                None => None,
                Some((m, used)) => Some((GeomModel::Point(m), used)),
            },
            GeometryType::LineString => match spec_decode_ls_obj(b) {
                None => None,
                Some((m, used)) => Some((GeomModel::LineString(m), used)),
            },
            GeometryType::Polygon => match spec_decode_poly_obj(b) {
                None => None,
                Some((m, used)) => Some((GeomModel::Polygon(m), used)),
            },
            GeometryType::MultiPoint => match spec_decode_mp_obj(b) {
                None => None,
                Some((m, used)) => Some((GeomModel::MultiPoint(m), used)),
            },
            GeometryType::MultiLineString => match spec_decode_mls_obj(b) {
                None => None,
                Some((m, used)) => Some((GeomModel::MultiLineString(m), used)),
            },
            GeometryType::MultiPolygon => match spec_decode_mpoly_obj(b) {
                None => None,
                Some((m, used)) => Some((GeomModel::MultiPolygon(m), used)),
            },
            GeometryType::GeometryCollection => match spec_decode_gc_obj(b) {
                None => None,
                Some((m, used)) => Some((GeomModel::GeometryCollection(m), used)),
            },
        },
    }
}

/// A coordinate read depends only on the eight bytes it covers: two buffers
/// that agree on them yield the same coordinate.
pub proof fn lemma_coord_at_agree(
    b1: Seq<u8>,
    b2: Seq<u8>,
    base: int,
    bo: Endianness,
    dim: Dimension,
)
    requires
        0 <= base,
        base + spec_dim_size(dim) * 8 <= b1.len(),
        base + spec_dim_size(dim) * 8 <= b2.len(),
        b1.subrange(base, base + spec_dim_size(dim) * 8) == b2.subrange(
            base,
            base + spec_dim_size(dim) * 8,
        ),
    ensures
        spec_coord_at(b1, base, bo, dim) == spec_coord_at(b2, base, bo, dim),
{
    let ds = spec_dim_size(dim) as int;
    assert forall|i: int| 0 <= i < ds implies #[trigger] b1.subrange(base + 8 * i, base + 8 * i
        + 8) == b2.subrange(base + 8 * i, base + 8 * i + 8) by {
        assert(b1.subrange(base + 8 * i, base + 8 * i + 8) =~= b2.subrange(
            base + 8 * i,
            base + 8 * i + 8,
        )) by {
            assert forall|k: int| 0 <= k < 8 implies #[trigger] b1.subrange(base + 8 * i, base
                + 8 * i + 8)[k] == b2.subrange(base + 8 * i, base + 8 * i + 8)[k] by {
                assert(b1[base + 8 * i + k] == b1.subrange(base, base + ds * 8)[8 * i + k]);
                assert(b2[base + 8 * i + k] == b2.subrange(base, base + ds * 8)[8 * i + k]);
            }
        }
    }
    assert(spec_coord_at(b1, base, bo, dim) =~= spec_coord_at(b2, base, bo, dim));
}

/// A coordinate run depends only on the bytes it covers.
pub proof fn lemma_coords_at_agree(
    b1: Seq<u8>,
    b2: Seq<u8>,
    base: int,
    bo: Endianness,
    dim: Dimension,
    n: nat,
)
    requires
        0 <= base,
        base + n * spec_dim_size(dim) * 8 <= b1.len(),
        base + n * spec_dim_size(dim) * 8 <= b2.len(),
        b1.subrange(base, base + n * spec_dim_size(dim) * 8) == b2.subrange(
            base,
            base + n * spec_dim_size(dim) * 8,
        ),
    ensures
        spec_coords_at(b1, base, bo, dim, n) == spec_coords_at(b2, base, bo, dim, n),
{
    let ds = spec_dim_size(dim) as int;
    assert forall|j: int| 0 <= j < n implies #[trigger] spec_coord_at(b1, base + ds * 8 * j, bo,
        dim) == spec_coord_at(b2, base + ds * 8 * j, bo, dim) by {
        let cbase = base + ds * 8 * j;
        assert(ds * 8 * j + ds * 8 <= n * ds * 8) by (nonlinear_arith)
            requires 0 <= j < n, 2 <= ds <= 4;
        assert(0 <= ds * 8 * j) by (nonlinear_arith)
            requires 0 <= j, 2 <= ds;
        assert(b1.subrange(cbase, cbase + ds * 8) =~= b2.subrange(cbase, cbase + ds * 8)) by {
            assert forall|k: int| 0 <= k < ds * 8 implies #[trigger] b1.subrange(cbase, cbase
                + ds * 8)[k] == b2.subrange(cbase, cbase + ds * 8)[k] by {
                assert(b1[cbase + k] == b1.subrange(base, base + n * ds * 8)[ds * 8 * j + k]);
                assert(b2[cbase + k] == b2.subrange(base, base + n * ds * 8)[ds * 8 * j + k]);
            }
        }
        lemma_coord_at_agree(b1, b2, cbase, bo, dim);
    }
    assert(spec_coords_at(b1, base, bo, dim, n) =~= spec_coords_at(b2, base, bo, dim, n));
}

/// Reading a coordinate from a suffix of `b` is reading it at the shifted
/// position of `b` itself.
pub proof fn lemma_coord_at_shift(b: Seq<u8>, k: int, base: int, bo: Endianness, dim: Dimension)
    requires
        0 <= k,
        0 <= base,
        k + base + spec_dim_size(dim) * 8 <= b.len(),
    ensures
        spec_coord_at(b.skip(k), base, bo, dim) == spec_coord_at(b, k + base, bo, dim),
{
    let ds = spec_dim_size(dim) as int;
    assert forall|i: int| 0 <= i < ds implies #[trigger] b.skip(k).subrange(
        base + 8 * i,
        base + 8 * i + 8,
    ) == b.subrange(k + base + 8 * i, k + base + 8 * i + 8) by {
        assert(b.skip(k).subrange(base + 8 * i, base + 8 * i + 8) =~= b.subrange(
            k + base + 8 * i,
            k + base + 8 * i + 8,
        ));
    }
    assert(spec_coord_at(b.skip(k), base, bo, dim) =~= spec_coord_at(b, k + base, bo, dim));
}

/// Reading a coordinate run from a suffix of `b` is reading it at the
/// shifted position of `b` itself.
pub proof fn lemma_coords_at_shift(
    b: Seq<u8>,
    k: int,
    base: int,
    bo: Endianness,
    dim: Dimension,
    n: nat,
)
    requires
        0 <= k,
        0 <= base,
        k + base + n * spec_dim_size(dim) * 8 <= b.len(),
    ensures
        spec_coords_at(b.skip(k), base, bo, dim, n) == spec_coords_at(b, k + base, bo, dim, n),
{
    let ds = spec_dim_size(dim) as int;
    assert forall|j: int| 0 <= j < n implies #[trigger] spec_coord_at(
        b.skip(k),
        base + ds * 8 * j,
        bo,
        dim,
    ) == spec_coord_at(b, k + base + ds * 8 * j, bo, dim) by {
        assert(ds * 8 * j + ds * 8 <= n * ds * 8) by (nonlinear_arith)
            requires
                0 <= j < n,
                2 <= ds <= 4,
        ;
        assert(0 <= ds * 8 * j) by (nonlinear_arith)
            requires
                0 <= j,
                2 <= ds,
        ;
        lemma_coord_at_shift(b, k, base + ds * 8 * j, bo, dim);
    }
    assert(spec_coords_at(b.skip(k), base, bo, dim, n) =~= spec_coords_at(
        b,
        k + base,
        bo,
        dim,
        n,
    ));
}

// ------------------------------------------------------------------
// Encoding: the bytes a geometry serializes to.
// ------------------------------------------------------------------

/// The ordinates of the coordinate written for POINT EMPTY: all NaN.
pub open spec fn spec_nan_coord(dim: Dimension) -> Seq<u64> {
    Seq::new(spec_dim_size(dim), |i: int| F64_NAN_BITS)
}

/// Encode the ordinates of one coordinate.
pub open spec fn spec_enc_ords(c: Seq<u64>, bo: Endianness) -> Seq<u8>
    decreases c.len(),
{
    if c.len() == 0 {
        Seq::empty()
    } else {
        spec_u64_bytes(c[0], bo) + spec_enc_ords(c.skip(1), bo)
    }
}

/// Encode a run of coordinates back-to-back.
pub open spec fn spec_enc_coords(cs: Seq<Seq<u64>>, bo: Endianness) -> Seq<u8>
    decreases cs.len(),
{
    if cs.len() == 0 {
        Seq::empty()
    } else {
        spec_enc_ords(cs[0], bo) + spec_enc_coords(cs.skip(1), bo)
    }
}

/// Encode the five-byte header of a geometry: marker byte, then the ISO type
/// code of its kind and dimension.
pub open spec fn spec_enc_header(kind: GeometryType, dim: Dimension, bo: Endianness) -> Seq<u8> {
    seq![spec_marker_byte(bo)] + spec_u32_bytes(
        (spec_kind_base(kind) + spec_dim_offset(dim)) as u32,
        bo,
    )
}

/// Encode a framed Point: an empty point is written as all-NaN ordinates.
pub open spec fn spec_enc_point(p: PointModel, bo: Endianness) -> Seq<u8> {
    spec_enc_header(GeometryType::Point, p.dim, bo) + match p.coord {
        Some(c) => spec_enc_ords(c, bo),
        None => spec_enc_ords(spec_nan_coord(p.dim), bo),
    }
}

/// Encode a headerless LineString body: count, then coordinates.
pub open spec fn spec_enc_ls_body(cs: Seq<Seq<u64>>, bo: Endianness) -> Seq<u8> {
    spec_u32_bytes(cs.len() as u32, bo) + spec_enc_coords(cs, bo)
}

/// Encode a run of headerless LineString bodies back-to-back.
pub open spec fn spec_enc_rings(rs: Seq<Seq<Seq<u64>>>, bo: Endianness) -> Seq<u8>
    decreases rs.len(),
{
    if rs.len() == 0 {
        Seq::empty()
    } else {
        spec_enc_ls_body(rs[0], bo) + spec_enc_rings(rs.skip(1), bo)
    }
}

/// Encode a headerless Polygon body: ring count, then rings.
pub open spec fn spec_enc_poly_body(rs: Seq<Seq<Seq<u64>>>, bo: Endianness) -> Seq<u8> {
    spec_u32_bytes(rs.len() as u32, bo) + spec_enc_rings(rs, bo)
}

/// Encode a run of framed Points back-to-back.
pub open spec fn spec_enc_points(ps: Seq<PointModel>, bo: Endianness) -> Seq<u8>
    decreases ps.len(),
{
    if ps.len() == 0 {
        Seq::empty()
    } else {
        spec_enc_point(ps[0], bo) + spec_enc_points(ps.skip(1), bo)
    }
}

/// Encode a run of headerless Polygon bodies back-to-back.
pub open spec fn spec_enc_polys(ps: Seq<Seq<Seq<Seq<u64>>>>, bo: Endianness) -> Seq<u8>
    decreases ps.len(),
{
    if ps.len() == 0 {
        Seq::empty()
    } else {
        spec_enc_poly_body(ps[0], bo) + spec_enc_polys(ps.skip(1), bo)
    }
}

/// Encode a run of fully self-described geometries back-to-back.
pub open spec fn spec_enc_geoms(gs: Seq<GeomModel>, bo: Endianness) -> Seq<u8>
    decreases gs, 0int,
{
    if gs.len() == 0 {
        Seq::empty()
    } else {
        spec_enc(gs[0], bo) + spec_enc_geoms(gs.skip(1), bo)
    }
}

/// The WKB bytes a geometry serializes to in the given byte order.
pub open spec fn spec_enc(g: GeomModel, bo: Endianness) -> Seq<u8>
    decreases g, 1int,
{
    match g {
        GeomModel::Point(p) => spec_enc_point(p, bo),
        GeomModel::LineString(l) => spec_enc_header(GeometryType::LineString, l.dim, bo)
            + spec_enc_ls_body(l.coords, bo),
        GeomModel::Polygon(p) => spec_enc_header(GeometryType::Polygon, p.dim, bo)
            + spec_enc_poly_body(p.rings, bo),
        GeomModel::MultiPoint(m) => spec_enc_header(GeometryType::MultiPoint, m.dim, bo)
            + spec_u32_bytes(m.points.len() as u32, bo) + spec_enc_points(m.points, bo),
        GeomModel::MultiLineString(m) => spec_enc_header(GeometryType::MultiLineString, m.dim, bo)
            + spec_u32_bytes(m.lines.len() as u32, bo) + spec_enc_rings(m.lines, bo),
        GeomModel::MultiPolygon(m) => spec_enc_header(GeometryType::MultiPolygon, m.dim, bo)
            + spec_u32_bytes(m.polygons.len() as u32, bo) + spec_enc_polys(m.polygons, bo),
        GeomModel::GeometryCollection(c) => spec_enc_header(
            GeometryType::GeometryCollection,
            c.dim,
            bo,
        ) + spec_u32_bytes(c.geometries.len() as u32, bo) + spec_enc_geoms(c.geometries, bo),
    }
}

// ------------------------------------------------------------------
// Well-formedness: the models the encoder is owed to round-trip.
// ------------------------------------------------------------------

/// A coordinate has exactly the ordinates of its dimension.
pub open spec fn wf_coord(c: Seq<u64>, dim: Dimension) -> bool {
    c.len() == spec_dim_size(dim)
}

/// A coordinate run has a representable count and well-formed members.
pub open spec fn wf_coords(cs: Seq<Seq<u64>>, dim: Dimension) -> bool {
    &&& spec_count_fits(cs.len())
    &&& forall|i: int| 0 <= i < cs.len() ==> wf_coord(#[trigger] cs[i], dim)
}

/// A ring run has a representable count and well-formed members.
pub open spec fn wf_rings(rs: Seq<Seq<Seq<u64>>>, dim: Dimension) -> bool {
    &&& spec_count_fits(rs.len())
    &&& forall|i: int| 0 <= i < rs.len() ==> wf_coords(#[trigger] rs[i], dim)
}

/// A Point is well formed when its coordinate matches its dimension and a
/// present coordinate is not all NaN (all NaN denotes the empty point).
pub open spec fn wf_point(p: PointModel) -> bool {
    match p.coord {
        None => true,
        Some(c) => wf_coord(c, p.dim) && !spec_all_nan(c),
    }
}

/// Whether a geometry model is well formed: counts representable, every
/// coordinate of its declared dimension, every member of a homogeneous
/// multi-geometry of the parent's dimension.
pub open spec fn wf_model(g: GeomModel) -> bool
    decreases g,
{
    match g {
        GeomModel::Point(p) => wf_point(p),
        GeomModel::LineString(l) => wf_coords(l.coords, l.dim),
        GeomModel::Polygon(p) => wf_rings(p.rings, p.dim),
        GeomModel::MultiPoint(m) => {
            &&& spec_count_fits(m.points.len())
            &&& forall|i: int|
                0 <= i < m.points.len() ==> wf_point(#[trigger] m.points[i]) && m.points[i].dim
                    == m.dim
        },
        GeomModel::MultiLineString(m) => wf_rings(m.lines, m.dim) && spec_count_fits(m.lines.len()),
        GeomModel::MultiPolygon(m) => {
            &&& spec_count_fits(m.polygons.len())
            &&& forall|i: int| 0 <= i < m.polygons.len() ==> wf_rings(#[trigger] m.polygons[i], m.dim)
        },
        GeomModel::GeometryCollection(c) => {
            &&& spec_count_fits(c.geometries.len())
            &&& forall|i: int| 0 <= i < c.geometries.len() ==> wf_model(#[trigger] c.geometries[i])
        },
    }
}

/// Whether every element count in a geometry is representable as a u32 on
/// the wire: exactly the condition under which the writer succeeds.
pub open spec fn spec_wf_counts(g: GeomModel) -> bool
    decreases g,
{
    match g {
        GeomModel::Point(_) => true,
        GeomModel::LineString(l) => l.coords.len() <= u32::MAX,
        GeomModel::Polygon(p) => p.rings.len() <= u32::MAX && forall|i: int|
            0 <= i < p.rings.len() ==> (#[trigger] p.rings[i]).len() <= u32::MAX,
        GeomModel::MultiPoint(m) => m.points.len() <= u32::MAX,
        GeomModel::MultiLineString(m) => m.lines.len() <= u32::MAX && forall|i: int|
            0 <= i < m.lines.len() ==> (#[trigger] m.lines[i]).len() <= u32::MAX,
        GeomModel::MultiPolygon(m) => m.polygons.len() <= u32::MAX && forall|i: int|
            0 <= i < m.polygons.len() ==> (#[trigger] m.polygons[i]).len() <= u32::MAX
                && forall|j: int|
                0 <= j < m.polygons[i].len() ==> (#[trigger] m.polygons[i][j]).len() <= u32::MAX,
        GeomModel::GeometryCollection(c) => c.geometries.len() <= u32::MAX && forall|i: int|
            0 <= i < c.geometries.len() ==> spec_wf_counts(#[trigger] c.geometries[i]),
    }
}

} // verus!
