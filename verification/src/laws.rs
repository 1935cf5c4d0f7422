//! The laws of the codec: what a buffer produced by the encoder decodes
//! back to, with or without trailing bytes.

use vstd::prelude::*;

use crate::common::Dimension;
use crate::common::Endianness;
use crate::common::GeometryType;
use crate::common::WkbHeader;
use crate::common::spec_dim_size;
use crate::common::spec_dim_offset;
use crate::common::spec_kind_base;
use crate::common::spec_header;
use crate::common::spec_header_len;
use crate::model::GeomModel;
use crate::model::spec_all_nan;
use crate::model::spec_coord_at;
use crate::model::spec_coords_at;
use crate::model::spec_decode;
use crate::model::spec_decode_ls_body;
use crate::model::spec_decode_point_obj;
use crate::model::spec_decode_poly_body;
use crate::model::spec_decode_rings;
use crate::model::spec_decode_points;
use crate::model::spec_decode_polys;
use crate::model::spec_decode_geoms;
use crate::model::spec_enc;
use crate::model::spec_enc_header;
use crate::model::spec_enc_ords;
use crate::model::spec_enc_coords;
use crate::model::spec_enc_ls_body;
use crate::model::spec_enc_rings;
use crate::model::spec_enc_poly_body;
use crate::model::spec_enc_points;
use crate::model::spec_enc_polys;
use crate::model::spec_enc_geoms;
use crate::model::spec_enc_point;
use crate::model::spec_nan_coord;
use crate::model::spec_mp_child_ok;
use crate::model::wf_model;
use crate::model::wf_point;
use crate::model::wf_coords;
use crate::model::wf_rings;
use crate::model::PointModel;
use crate::wire::F64_NAN_BITS;
use crate::wire::spec_is_nan64;
use crate::wire::spec_u32_bytes;
use crate::wire::spec_u64_bytes;
use crate::wire::spec_word32;
use crate::wire::lemma_word32_roundtrip;
use crate::wire::lemma_word64_roundtrip;

verus! {

/// The encoded ordinates of a coordinate occupy eight bytes each.
pub proof fn lemma_enc_ords_len(c: Seq<u64>, bo: Endianness)
    ensures
        spec_enc_ords(c, bo).len() == 8 * c.len(),
    decreases c.len(),
{
    if c.len() != 0 {
        lemma_enc_ords_len(c.skip(1), bo);
    }
}

/// The `i`th encoded ordinate sits at byte `8 * i` of the encoding.
pub proof fn lemma_enc_ords_index(c: Seq<u64>, bo: Endianness, i: int)
    requires
        0 <= i < c.len(),
    ensures
        spec_enc_ords(c, bo).subrange(8 * i, 8 * i + 8) == spec_u64_bytes(c[i], bo),
    decreases i,
{
    lemma_enc_ords_len(c, bo);
    lemma_enc_ords_len(c.skip(1), bo);
    if i == 0 {
        assert(spec_enc_ords(c, bo).subrange(0, 8) =~= spec_u64_bytes(c[0], bo));
    } else {
        lemma_enc_ords_index(c.skip(1), bo, i - 1);
        assert(spec_enc_ords(c, bo).subrange(8 * i, 8 * i + 8) =~= spec_enc_ords(
            c.skip(1),
            bo,
        ).subrange(8 * (i - 1), 8 * (i - 1) + 8));
        assert(c.skip(1)[i - 1] == c[i]);
    }
}

/// A coordinate read back from its own encoding is itself.
pub proof fn lemma_coord_of_enc_ords(
    b: Seq<u8>,
    base: int,
    c: Seq<u64>,
    bo: Endianness,
    dim: Dimension,
)
    requires
        c.len() == spec_dim_size(dim),
        0 <= base,
        base + 8 * c.len() <= b.len(),
        b.subrange(base, base + 8 * c.len()) == spec_enc_ords(c, bo),
    ensures
        spec_coord_at(b, base, bo, dim) == c,
{
    lemma_enc_ords_len(c, bo);
    assert forall|i: int| 0 <= i < c.len() implies #[trigger] spec_coord_at(b, base, bo, dim)[i]
        == c[i] by {
        lemma_enc_ords_index(c, bo, i);
        assert(b.subrange(base + 8 * i, base + 8 * i + 8) =~= spec_enc_ords(c, bo).subrange(
            8 * i,
            8 * i + 8,
        )) by {
            assert forall|k: int| 0 <= k < 8 implies #[trigger] b.subrange(
                base + 8 * i,
                base + 8 * i + 8,
            )[k] == spec_enc_ords(c, bo).subrange(8 * i, 8 * i + 8)[k] by {
                assert(b[base + 8 * i + k] == b.subrange(base, base + 8 * c.len())[8 * i + k]);
            }
        }
        lemma_word64_roundtrip(c[i], bo);
    }
    assert(spec_coord_at(b, base, bo, dim) =~= c);
}

/// The encoded coordinates of a well-formed run occupy a fixed stride each.
pub proof fn lemma_enc_coords_len(cs: Seq<Seq<u64>>, bo: Endianness, dim: Dimension)
    requires
        forall|i: int| 0 <= i < cs.len() ==> (#[trigger] cs[i]).len() == spec_dim_size(dim),
    ensures
        spec_enc_coords(cs, bo).len() == cs.len() * spec_dim_size(dim) * 8,
    decreases cs.len(),
{
    let ds = spec_dim_size(dim) as int;
    if cs.len() == 0 {
        assert(cs.len() * ds * 8 == 0) by (nonlinear_arith)
            requires
                cs.len() == 0,
        ;
    } else {
        lemma_enc_ords_len(cs[0], bo);
        lemma_enc_coords_len(cs.skip(1), bo, dim);
        assert(8 * ds + (cs.len() - 1) * ds * 8 == cs.len() * ds * 8) by (nonlinear_arith);
    }
}

/// A coordinate run read back from its own encoding is itself.
pub proof fn lemma_coords_of_enc(
    b: Seq<u8>,
    base: int,
    cs: Seq<Seq<u64>>,
    bo: Endianness,
    dim: Dimension,
)
    requires
        forall|i: int| 0 <= i < cs.len() ==> (#[trigger] cs[i]).len() == spec_dim_size(dim),
        0 <= base,
        base + cs.len() * spec_dim_size(dim) * 8 <= b.len(),
        b.subrange(base, base + cs.len() * spec_dim_size(dim) * 8) == spec_enc_coords(cs, bo),
    ensures
        spec_coords_at(b, base, bo, dim, cs.len()) == cs,
    decreases cs.len(),
{
    let ds = spec_dim_size(dim) as int;
    let n = cs.len() as int;
    if cs.len() == 0 {
        assert(spec_coords_at(b, base, bo, dim, 0) =~= cs);
    } else {
        lemma_enc_ords_len(cs[0], bo);
        lemma_enc_coords_len(cs, bo, dim);
        lemma_enc_coords_len(cs.skip(1), bo, dim);
        assert(8 * ds + (n - 1) * ds * 8 == n * ds * 8) by (nonlinear_arith);
        assert(b.subrange(base, base + 8 * ds) =~= spec_enc_ords(cs[0], bo)) by {
            assert forall|k: int| 0 <= k < 8 * ds implies #[trigger] b.subrange(
                base,
                base + 8 * ds,
            )[k] == spec_enc_ords(cs[0], bo)[k] by {
                assert(b[base + k] == b.subrange(base, base + n * ds * 8)[k]);
            }
        }
        lemma_coord_of_enc_ords(b, base, cs[0], bo, dim);
        assert(b.subrange(base + ds * 8, base + ds * 8 + (n - 1) * ds * 8) =~= spec_enc_coords(
            cs.skip(1),
            bo,
        )) by {
            assert forall|k: int| 0 <= k < (n - 1) * ds * 8 implies #[trigger] b.subrange(
                base + ds * 8,
                base + ds * 8 + (n - 1) * ds * 8,
            )[k] == spec_enc_coords(cs.skip(1), bo)[k] by {
                assert(b[base + ds * 8 + k] == b.subrange(base, base + n * ds * 8)[ds * 8 + k]);
            }
        }
        lemma_coords_of_enc(b, base + ds * 8, cs.skip(1), bo, dim);
        assert forall|j: int| 0 <= j < n implies #[trigger] spec_coords_at(b, base, bo, dim, cs.len())[j]
            == cs[j] by {
            if j == 0 {
                assert(ds * 8 * 0 == 0) by (nonlinear_arith);
            } else {
                assert(spec_coords_at(b, base + ds * 8, bo, dim, (n - 1) as nat)[j - 1] == cs.skip(
                    1,
                )[j - 1]);
                assert(base + ds * 8 + ds * 8 * (j - 1) == base + ds * 8 * j) by (nonlinear_arith);
            }
        }
        assert(spec_coords_at(b, base, bo, dim, cs.len()) =~= cs);
    }
}

/// A buffer that starts with an encoded header decodes to that header.
pub proof fn lemma_header_of_enc(kind: GeometryType, dim: Dimension, bo: Endianness, b: Seq<u8>)
    requires
        b.len() >= 5,
        b.subrange(0, 5) == spec_enc_header(kind, dim, bo),
    ensures
        spec_header(b) == Some(WkbHeader { byte_order: bo, kind, dim, has_srid: false }),
{
    let base = spec_kind_base(kind);
    let off = spec_dim_offset(dim);
    let code = (base + off) as u32;
    lemma_word32_roundtrip(code, bo);
    assert(b[0] == spec_enc_header(kind, dim, bo)[0]) by {
        assert(b[0] == b.subrange(0, 5)[0]);
    }
    assert(b.subrange(1, 5) =~= spec_u32_bytes(code, bo)) by {
        assert forall|k: int| 0 <= k < 4 implies #[trigger] b.subrange(1, 5)[k] == spec_u32_bytes(
            code,
            bo,
        )[k] by {
            assert(b[1 + k] == b.subrange(0, 5)[1 + k]);
        }
    }
    assert(code & 0x7 == base && code & 0x80000000u32 == 0 && code & 0x40000000u32 == 0 && code
        & 0x20000000u32 == 0) by (bit_vector)
        requires
            (base == 1 || base == 2 || base == 3 || base == 4 || base == 5 || base == 6 || base
                == 7) && (off == 0 || off == 1000 || off == 2000 || off == 3000) && code == (base
                + off) as u32,
    ;
    assert(code / 1000 == off / 1000 && off / 1000 < 4 && (off == 0 ==> code / 1000 == 0) && (off
        == 1000 ==> code / 1000 == 1) && (off == 2000 ==> code / 1000 == 2) && (off == 3000
        ==> code / 1000 == 3)) by (bit_vector)
        requires
            (base == 1 || base == 2 || base == 3 || base == 4 || base == 5 || base == 6 || base
                == 7) && (off == 0 || off == 1000 || off == 2000 || off == 3000) && code == (base
                + off) as u32,
    ;
}

/// The bit pattern written for a NaN ordinate is a NaN.
pub proof fn lemma_nan_bits()
    ensures
        spec_is_nan64(F64_NAN_BITS),
        spec_all_nan(spec_nan_coord(Dimension::Xy)),
        forall|d: Dimension| spec_all_nan(#[trigger] spec_nan_coord(d)),
{
    assert(0x7FF8000000000000u64 & 0x7FF0000000000000u64 == 0x7FF0000000000000u64
        && 0x7FF8000000000000u64 & 0x000FFFFFFFFFFFFFu64 != 0u64) by (bit_vector);
}

/// A LineString body read back from its own encoding, with any trailing
/// bytes, is itself.
#[verifier::rlimit(100)]
#[verifier::spinoff_prover]
pub proof fn lemma_dec_of_enc_ls_body(
    cs: Seq<Seq<u64>>,
    bo: Endianness,
    dim: Dimension,
    rest: Seq<u8>,
)
    requires
        wf_coords(cs, dim),
    ensures
        spec_enc_ls_body(cs, bo).len() == 4 + cs.len() * spec_dim_size(dim) * 8,
        spec_decode_ls_body(spec_enc_ls_body(cs, bo) + rest, bo, dim) == Some(
            (cs, spec_enc_ls_body(cs, bo).len() as nat),
        ),
{
    let ds = spec_dim_size(dim) as int;
    let n = cs.len() as int;
    let e = spec_enc_ls_body(cs, bo);
    let b = e + rest;
    lemma_enc_coords_len(cs, bo, dim);
    lemma_word32_roundtrip(cs.len() as u32, bo);
    assert(b.subrange(0, 4) =~= spec_u32_bytes(cs.len() as u32, bo));
    assert(spec_word32(b.subrange(0, 4), bo) == cs.len() as u32);
    assert(b.subrange(4, 4 + n * ds * 8) =~= spec_enc_coords(cs, bo));
    lemma_coords_of_enc(b, 4, cs, bo, dim);
}

/// A run of rings read back from its own encoding, with any trailing bytes,
/// is itself.
#[verifier::rlimit(100)]
#[verifier::spinoff_prover]
pub proof fn lemma_dec_of_enc_rings(
    rs: Seq<Seq<Seq<u64>>>,
    bo: Endianness,
    dim: Dimension,
    rest: Seq<u8>,
)
    requires
        wf_rings(rs, dim),
    ensures
        spec_decode_rings(spec_enc_rings(rs, bo) + rest, bo, dim, rs.len()) == Some(
            (rs, spec_enc_rings(rs, bo).len() as nat),
        ),
    decreases rs.len(),
{
    let e = spec_enc_rings(rs, bo);
    let b = e + rest;
    if rs.len() == 0 {
        assert(b =~= rest);
        assert(spec_decode_rings(b, bo, dim, 0) == Some((Seq::<Seq<Seq<u64>>>::empty(), 0nat)));
        assert(Seq::<Seq<Seq<u64>>>::empty() =~= rs);
    } else {
        let r0 = rs[0];
        let e0 = spec_enc_ls_body(r0, bo);
        let erest = spec_enc_rings(rs.skip(1), bo);
        assert(b =~= e0 + (erest + rest));
        lemma_dec_of_enc_ls_body(r0, bo, dim, erest + rest);
        assert(spec_decode_ls_body(b, bo, dim) == Some((r0, e0.len() as nat)));
        assert(b.skip(e0.len() as int) =~= erest + rest);
        lemma_dec_of_enc_rings(rs.skip(1), bo, dim, rest);
        assert(seq![r0] + rs.skip(1) =~= rs);
    }
}

/// A headerless Polygon body read back from its own encoding, with any
/// trailing bytes, is itself.
#[verifier::rlimit(100)]
#[verifier::spinoff_prover]
pub proof fn lemma_dec_of_enc_poly_body(
    rs: Seq<Seq<Seq<u64>>>,
    bo: Endianness,
    dim: Dimension,
    rest: Seq<u8>,
)
    requires
        wf_rings(rs, dim),
    ensures
        spec_decode_poly_body(spec_enc_poly_body(rs, bo) + rest, bo, dim) == Some(
            (rs, spec_enc_poly_body(rs, bo).len() as nat),
        ),
{
    let e = spec_enc_poly_body(rs, bo);
    let b = e + rest;
    lemma_word32_roundtrip(rs.len() as u32, bo);
    assert(b.subrange(0, 4) =~= spec_u32_bytes(rs.len() as u32, bo));
    assert(b.skip(4) =~= spec_enc_rings(rs, bo) + rest);
    lemma_dec_of_enc_rings(rs, bo, dim, rest);
}

/// A run of headerless Polygon bodies read back from its own encoding, with
/// any trailing bytes, is itself.
#[verifier::rlimit(100)]
#[verifier::spinoff_prover]
pub proof fn lemma_dec_of_enc_polys(
    ps: Seq<Seq<Seq<Seq<u64>>>>,
    bo: Endianness,
    dim: Dimension,
    rest: Seq<u8>,
)
    requires
        forall|i: int| 0 <= i < ps.len() ==> wf_rings(#[trigger] ps[i], dim),
    ensures
        spec_decode_polys(spec_enc_polys(ps, bo) + rest, bo, dim, ps.len()) == Some(
            (ps, spec_enc_polys(ps, bo).len() as nat),
        ),
    decreases ps.len(),
{
    let e = spec_enc_polys(ps, bo);
    let b = e + rest;
    if ps.len() == 0 {
        assert(b =~= rest);
        assert(Seq::<Seq<Seq<Seq<u64>>>>::empty() =~= ps);
    } else {
        let p0 = ps[0];
        let e0 = spec_enc_poly_body(p0, bo);
        let erest = spec_enc_polys(ps.skip(1), bo);
        assert(b =~= e0 + (erest + rest));
        lemma_dec_of_enc_poly_body(p0, bo, dim, erest + rest);
        assert(b.skip(e0.len() as int) =~= erest + rest);
        lemma_dec_of_enc_polys(ps.skip(1), bo, dim, rest);
        assert(seq![p0] + ps.skip(1) =~= ps);
    }
}

/// A framed Point read back from its own encoding, with any trailing bytes,
/// is itself; the encoding also carries the header a MultiPoint member must
/// carry.
#[verifier::rlimit(100)]
#[verifier::spinoff_prover]
pub proof fn lemma_dec_of_enc_point(p: PointModel, bo: Endianness, rest: Seq<u8>)
    requires
        wf_point(p),
    ensures
        spec_enc_point(p, bo).len() == 5 + spec_dim_size(p.dim) * 8,
        spec_decode_point_obj(spec_enc_point(p, bo) + rest) == Some(
            (p, (5 + spec_dim_size(p.dim) * 8) as nat),
        ),
        spec_mp_child_ok(spec_enc_point(p, bo) + rest, p.dim),
{
    let ds = spec_dim_size(p.dim) as int;
    let e = spec_enc_point(p, bo);
    let b = e + rest;
    let c = match p.coord {
        Some(c) => c,
        None => spec_nan_coord(p.dim),
    };
    lemma_enc_ords_len(c, bo);
    assert(b.subrange(0, 5) =~= spec_enc_header(GeometryType::Point, p.dim, bo));
    lemma_header_of_enc(GeometryType::Point, p.dim, bo, b);
    assert(b.subrange(5, 5 + 8 * ds) =~= spec_enc_ords(c, bo));
    lemma_coord_of_enc_ords(b, 5, c, bo, p.dim);
    lemma_nan_bits();
    match p.coord {
        Some(_) => {
            assert(!spec_all_nan(c));
        },
        None => {
            assert(spec_all_nan(c));
        },
    }
}

/// A run of framed Points read back from its own encoding, with any trailing
/// bytes, is itself.
#[verifier::rlimit(100)]
#[verifier::spinoff_prover]
pub proof fn lemma_dec_of_enc_points(
    ps: Seq<PointModel>,
    dim: Dimension,
    bo: Endianness,
    rest: Seq<u8>,
)
    requires
        forall|i: int|
            0 <= i < ps.len() ==> wf_point(#[trigger] ps[i]) && ps[i].dim == dim,
    ensures
        spec_decode_points(spec_enc_points(ps, bo) + rest, dim, ps.len()) == Some(
            (ps, spec_enc_points(ps, bo).len() as nat),
        ),
    decreases ps.len(),
{
    let e = spec_enc_points(ps, bo);
    let b = e + rest;
    if ps.len() == 0 {
        assert(b =~= rest);
        assert(Seq::<PointModel>::empty() =~= ps);
    } else {
        let p0 = ps[0];
        let e0 = spec_enc_point(p0, bo);
        let erest = spec_enc_points(ps.skip(1), bo);
        assert(b =~= e0 + (erest + rest));
        lemma_dec_of_enc_point(p0, bo, erest + rest);
        assert(b.skip(e0.len() as int) =~= erest + rest);
        lemma_dec_of_enc_points(ps.skip(1), dim, bo, rest);
        assert(seq![p0] + ps.skip(1) =~= ps);
    }
}

/// Decoding any encoding of a well-formed geometry, with any trailing bytes,
/// yields the geometry back and consumes exactly the encoding's length.
/// Decoding the encoding of a well-formed Point, with trailing bytes.
#[verifier::rlimit(100)]
#[verifier::spinoff_prover]
proof fn lemma_dec_of_enc_point_case(p: PointModel, bo: Endianness, rest: Seq<u8>)
    requires
        wf_model(GeomModel::Point(p)),
    ensures
        spec_decode(spec_enc(GeomModel::Point(p), bo) + rest) == Some(
            (GeomModel::Point(p), spec_enc(GeomModel::Point(p), bo).len() as nat),
        ),
{
    let b = spec_enc(GeomModel::Point(p), bo) + rest;
    assert(b =~= spec_enc_point(p, bo) + rest);
    lemma_dec_of_enc_point(p, bo, rest);
}

/// Decoding the encoding of a well-formed LineString, with trailing bytes.
#[verifier::rlimit(100)]
#[verifier::spinoff_prover]
proof fn lemma_dec_of_enc_ls_case(l: crate::model::LineStringModel, bo: Endianness, rest: Seq<u8>)
    requires
        wf_model(GeomModel::LineString(l)),
    ensures
        spec_decode(spec_enc(GeomModel::LineString(l), bo) + rest) == Some(
            (GeomModel::LineString(l), spec_enc(GeomModel::LineString(l), bo).len() as nat),
        ),
{
    let b = spec_enc(GeomModel::LineString(l), bo) + rest;
    let body = spec_enc_ls_body(l.coords, bo);
    assert(b.subrange(0, 5) =~= spec_enc_header(GeometryType::LineString, l.dim, bo));
    lemma_header_of_enc(GeometryType::LineString, l.dim, bo, b);
    assert(b.skip(5) =~= body + rest);
    lemma_dec_of_enc_ls_body(l.coords, bo, l.dim, rest);
    assert(crate::model::LineStringModel { dim: l.dim, coords: l.coords } =~= l);
}

/// Decoding the encoding of a well-formed Polygon, with trailing bytes.
#[verifier::rlimit(100)]
#[verifier::spinoff_prover]
proof fn lemma_dec_of_enc_poly_case(p: crate::model::PolygonModel, bo: Endianness, rest: Seq<u8>)
    requires
        wf_model(GeomModel::Polygon(p)),
    ensures
        spec_decode(spec_enc(GeomModel::Polygon(p), bo) + rest) == Some(
            (GeomModel::Polygon(p), spec_enc(GeomModel::Polygon(p), bo).len() as nat),
        ),
{
    let b = spec_enc(GeomModel::Polygon(p), bo) + rest;
    let body = spec_enc_poly_body(p.rings, bo);
    assert(b.subrange(0, 5) =~= spec_enc_header(GeometryType::Polygon, p.dim, bo));
    lemma_header_of_enc(GeometryType::Polygon, p.dim, bo, b);
    assert(b.skip(5) =~= body + rest);
    lemma_dec_of_enc_poly_body(p.rings, bo, p.dim, rest);
    assert(crate::model::PolygonModel { dim: p.dim, rings: p.rings } =~= p);
}

/// Decoding the encoding of a well-formed MultiPoint, with trailing bytes.
#[verifier::rlimit(100)]
#[verifier::spinoff_prover]
proof fn lemma_dec_of_enc_mp_case(m: crate::model::MultiPointModel, bo: Endianness, rest: Seq<u8>)
    requires
        wf_model(GeomModel::MultiPoint(m)),
    ensures
        spec_decode(spec_enc(GeomModel::MultiPoint(m), bo) + rest) == Some(
            (GeomModel::MultiPoint(m), spec_enc(GeomModel::MultiPoint(m), bo).len() as nat),
        ),
{
    let b = spec_enc(GeomModel::MultiPoint(m), bo) + rest;
    let body = spec_enc_points(m.points, bo);
    assert(b.subrange(0, 5) =~= spec_enc_header(GeometryType::MultiPoint, m.dim, bo));
    lemma_header_of_enc(GeometryType::MultiPoint, m.dim, bo, b);
    lemma_word32_roundtrip(m.points.len() as u32, bo);
    assert(b.subrange(5, 9) =~= spec_u32_bytes(m.points.len() as u32, bo));
    assert(b.skip(9) =~= body + rest);
    lemma_dec_of_enc_points(m.points, m.dim, bo, rest);
    assert(crate::model::MultiPointModel { dim: m.dim, points: m.points } =~= m);
}

/// Decoding the encoding of a well-formed MultiLineString, with trailing
/// bytes.
#[verifier::rlimit(100)]
#[verifier::spinoff_prover]
proof fn lemma_dec_of_enc_mls_case(
    m: crate::model::MultiLineStringModel,
    bo: Endianness,
    rest: Seq<u8>,
)
    requires
        wf_model(GeomModel::MultiLineString(m)),
    ensures
        spec_decode(spec_enc(GeomModel::MultiLineString(m), bo) + rest) == Some(
            (
                GeomModel::MultiLineString(m),
                spec_enc(GeomModel::MultiLineString(m), bo).len() as nat,
            ),
        ),
{
    let b = spec_enc(GeomModel::MultiLineString(m), bo) + rest;
    let body = spec_enc_rings(m.lines, bo);
    assert(b.subrange(0, 5) =~= spec_enc_header(GeometryType::MultiLineString, m.dim, bo));
    lemma_header_of_enc(GeometryType::MultiLineString, m.dim, bo, b);
    lemma_word32_roundtrip(m.lines.len() as u32, bo);
    assert(b.subrange(5, 9) =~= spec_u32_bytes(m.lines.len() as u32, bo));
    assert(b.skip(9) =~= body + rest);
    lemma_dec_of_enc_rings(m.lines, bo, m.dim, rest);
    assert(crate::model::MultiLineStringModel { dim: m.dim, lines: m.lines } =~= m);
}

/// Decoding the encoding of a well-formed MultiPolygon, with trailing bytes.
#[verifier::rlimit(100)]
#[verifier::spinoff_prover]
proof fn lemma_dec_of_enc_mpoly_case(
    m: crate::model::MultiPolygonModel,
    bo: Endianness,
    rest: Seq<u8>,
)
    requires
        wf_model(GeomModel::MultiPolygon(m)),
    ensures
        spec_decode(spec_enc(GeomModel::MultiPolygon(m), bo) + rest) == Some(
            (GeomModel::MultiPolygon(m), spec_enc(GeomModel::MultiPolygon(m), bo).len() as nat),
        ),
{
    let b = spec_enc(GeomModel::MultiPolygon(m), bo) + rest;
    let body = spec_enc_polys(m.polygons, bo);
    assert(b.subrange(0, 5) =~= spec_enc_header(GeometryType::MultiPolygon, m.dim, bo));
    lemma_header_of_enc(GeometryType::MultiPolygon, m.dim, bo, b);
    lemma_word32_roundtrip(m.polygons.len() as u32, bo);
    assert(b.subrange(5, 9) =~= spec_u32_bytes(m.polygons.len() as u32, bo));
    assert(b.skip(9) =~= body + rest);
    lemma_dec_of_enc_polys(m.polygons, bo, m.dim, rest);
    assert(crate::model::MultiPolygonModel { dim: m.dim, polygons: m.polygons } =~= m);
}

/// Decoding any encoding of a well-formed geometry, with any trailing bytes,
/// yields the geometry back and consumes exactly the encoding's length.
#[verifier::rlimit(100)]
#[verifier::spinoff_prover]
pub proof fn lemma_decode_of_encode_with_rest(g: GeomModel, bo: Endianness, rest: Seq<u8>)
    requires
        wf_model(g),
    ensures
        spec_decode(spec_enc(g, bo) + rest) == Some((g, spec_enc(g, bo).len() as nat)),
    decreases g, 2int,
{
    match g {
        GeomModel::Point(p) => lemma_dec_of_enc_point_case(p, bo, rest),
        GeomModel::LineString(l) => lemma_dec_of_enc_ls_case(l, bo, rest),
        GeomModel::Polygon(p) => lemma_dec_of_enc_poly_case(p, bo, rest),
        GeomModel::MultiPoint(m) => lemma_dec_of_enc_mp_case(m, bo, rest),
        GeomModel::MultiLineString(m) => lemma_dec_of_enc_mls_case(m, bo, rest),
        GeomModel::MultiPolygon(m) => lemma_dec_of_enc_mpoly_case(m, bo, rest),
        GeomModel::GeometryCollection(c) => {
            let b = spec_enc(g, bo) + rest;
            let body = spec_enc_geoms(c.geometries, bo);
            assert(b.subrange(0, 5) =~= spec_enc_header(
                GeometryType::GeometryCollection,
                c.dim,
                bo,
            ));
            lemma_header_of_enc(GeometryType::GeometryCollection, c.dim, bo, b);
            lemma_word32_roundtrip(c.geometries.len() as u32, bo);
            assert(b.subrange(5, 9) =~= spec_u32_bytes(c.geometries.len() as u32, bo));
            assert(b.skip(9) =~= body + rest);
            lemma_dec_of_enc_geoms(c.geometries, bo, rest);
            assert(crate::model::GeometryCollectionModel { dim: c.dim, geometries: c.geometries }
                =~= c);
        },
    }
}

/// A run of fully framed geometries read back from its own encoding, with
/// any trailing bytes, is itself.
#[verifier::rlimit(100)]
#[verifier::spinoff_prover]
pub proof fn lemma_dec_of_enc_geoms(gs: Seq<GeomModel>, bo: Endianness, rest: Seq<u8>)
    requires
        forall|i: int| 0 <= i < gs.len() ==> wf_model(#[trigger] gs[i]),
    ensures
        spec_decode_geoms(spec_enc_geoms(gs, bo) + rest, gs.len()) == Some(
            (gs, spec_enc_geoms(gs, bo).len() as nat),
        ),
    decreases gs, 0int,
{
    let e = spec_enc_geoms(gs, bo);
    let b = e + rest;
    if gs.len() == 0 {
        assert(b =~= rest);
        assert(Seq::<GeomModel>::empty() =~= gs);
    } else {
        let g0 = gs[0];
        let e0 = spec_enc(g0, bo);
        let erest = spec_enc_geoms(gs.skip(1), bo);
        assert(b =~= e0 + (erest + rest));
        lemma_decode_of_encode_with_rest(g0, bo, erest + rest);
        assert(b.skip(e0.len() as int) =~= erest + rest);
        lemma_dec_of_enc_geoms(gs.skip(1), bo, rest);
        assert(seq![g0] + gs.skip(1) =~= gs);
    }
}

/// Round trip: decoding an encoding of a well-formed geometry yields the
/// same geometry in either byte order, and consumes the whole encoding.
#[verifier::rlimit(100)]
#[verifier::spinoff_prover]
pub proof fn lemma_round_trip(g: GeomModel, bo: Endianness)
    requires
        wf_model(g),
    ensures
        spec_decode(spec_enc(g, bo)) == Some((g, spec_enc(g, bo).len() as nat)),
{
    lemma_decode_of_encode_with_rest(g, bo, Seq::empty());
    assert(spec_enc(g, bo) + Seq::<u8>::empty() =~= spec_enc(g, bo));
}

/// Trailing-data tolerance: with arbitrary bytes appended, decoding still
/// succeeds, reports exactly the encoding's length consumed, and the trimmed
/// prefix re-decodes to the same geometry.
#[verifier::rlimit(100)]
#[verifier::spinoff_prover]
pub proof fn lemma_trailing_data(g: GeomModel, bo: Endianness, extra: Seq<u8>)
    requires
        wf_model(g),
    ensures
        spec_decode(spec_enc(g, bo) + extra) == Some((g, spec_enc(g, bo).len() as nat)),
        (spec_enc(g, bo) + extra).subrange(0, spec_enc(g, bo).len() as int) == spec_enc(g, bo),
        spec_decode(spec_enc(g, bo)) == Some((g, spec_enc(g, bo).len() as nat)),
{
    lemma_decode_of_encode_with_rest(g, bo, extra);
    lemma_round_trip(g, bo);
    assert((spec_enc(g, bo) + extra).subrange(0, spec_enc(g, bo).len() as int) =~= spec_enc(g, bo));
}

/// Empty-point sentinel: an empty point encodes as all-NaN ordinates, and a
/// decoded Point has no coordinate exactly when the raw ordinates at its
/// coordinate position are all NaN.
#[verifier::rlimit(100)]
#[verifier::spinoff_prover]
pub proof fn lemma_empty_point_sentinel(dim: Dimension, bo: Endianness, b: Seq<u8>)
    ensures
        spec_all_nan(
            spec_coord_at(spec_enc_point(PointModel { dim, coord: None }, bo), 5, bo, dim),
        ),
        spec_decode_point_obj(b) matches Some((p, used)) ==> {
            let h = spec_header(b).unwrap();
            p.coord is None <==> spec_all_nan(
                spec_coord_at(b, spec_header_len(h) as int, h.byte_order, h.dim),
            )
        },
{
    lemma_nan_bits();
    let p = PointModel { dim, coord: None };
    lemma_dec_of_enc_point(p, bo, Seq::empty());
    let e = spec_enc_point(p, bo);
    assert(e + Seq::<u8>::empty() =~= e);
    assert(spec_decode_point_obj(e) == Some((p, (5 + spec_dim_size(dim) * 8) as nat)));
}

/// Empty polygon: a polygon declaring zero rings decodes with no rings at
/// all, so it has no exterior and zero interiors.
#[verifier::rlimit(100)]
#[verifier::spinoff_prover]
pub proof fn lemma_empty_polygon(dim: Dimension, bo: Endianness, extra: Seq<u8>)
    ensures
        ({
            let g = GeomModel::Polygon(crate::model::PolygonModel { dim, rings: Seq::empty() });
            spec_decode(spec_enc(g, bo) + extra) == Some((g, spec_enc(g, bo).len() as nat))
        }),
        spec_decode_poly_body(b_empty_rings(bo), bo, dim) == Some((Seq::<Seq<Seq<u64>>>::empty(), 4nat)),
{
    let g = GeomModel::Polygon(crate::model::PolygonModel { dim, rings: Seq::empty() });
    lemma_trailing_data(g, bo, extra);
    lemma_word32_roundtrip(0u32, bo);
    assert(b_empty_rings(bo).subrange(0, 4) =~= spec_u32_bytes(0u32, bo));
    assert(spec_decode_rings(b_empty_rings(bo).skip(4), bo, dim, 0) == Some(
        (Seq::<Seq<Seq<u64>>>::empty(), 0nat),
    ));
}

/// A headerless Polygon body declaring zero rings: just the count field.
pub open spec fn b_empty_rings(bo: Endianness) -> Seq<u8> {
    spec_u32_bytes(0u32, bo)
}

/// Appending one ordinate appends its eight bytes to the encoding.
pub proof fn lemma_enc_ords_push(c: Seq<u64>, x: u64, bo: Endianness)
    ensures
        spec_enc_ords(c.push(x), bo) == spec_enc_ords(c, bo) + spec_u64_bytes(x, bo),
    decreases c.len(),
{
    reveal_with_fuel(spec_enc_ords, 3);
    if c.len() == 0 {
        assert(c.push(x).skip(1) =~= Seq::<u64>::empty());
        assert(spec_enc_ords(c.push(x), bo) =~= spec_enc_ords(c, bo) + spec_u64_bytes(x, bo));
    } else {
        assert(c.push(x).skip(1) =~= c.skip(1).push(x));
        lemma_enc_ords_push(c.skip(1), x, bo);
        assert(spec_enc_ords(c.push(x), bo) =~= spec_enc_ords(c, bo) + spec_u64_bytes(x, bo));
    }
}

/// Appending one coordinate appends its encoding.
pub proof fn lemma_enc_coords_push(cs: Seq<Seq<u64>>, c: Seq<u64>, bo: Endianness)
    ensures
        spec_enc_coords(cs.push(c), bo) == spec_enc_coords(cs, bo) + spec_enc_ords(c, bo),
    decreases cs.len(),
{
    reveal_with_fuel(spec_enc_coords, 3);
    if cs.len() == 0 {
        assert(cs.push(c).skip(1) =~= Seq::<Seq<u64>>::empty());
        assert(spec_enc_coords(cs.push(c), bo) =~= spec_enc_coords(cs, bo) + spec_enc_ords(c, bo));
    } else {
        assert(cs.push(c).skip(1) =~= cs.skip(1).push(c));
        lemma_enc_coords_push(cs.skip(1), c, bo);
        assert(spec_enc_coords(cs.push(c), bo) =~= spec_enc_coords(cs, bo) + spec_enc_ords(c, bo));
    }
}

/// Appending one ring appends its encoding.
pub proof fn lemma_enc_rings_push(rs: Seq<Seq<Seq<u64>>>, r: Seq<Seq<u64>>, bo: Endianness)
    ensures
        spec_enc_rings(rs.push(r), bo) == spec_enc_rings(rs, bo) + spec_enc_ls_body(r, bo),
    decreases rs.len(),
{
    reveal_with_fuel(spec_enc_rings, 3);
    if rs.len() == 0 {
        assert(rs.push(r).skip(1) =~= Seq::<Seq<Seq<u64>>>::empty());
        assert(spec_enc_rings(rs.push(r), bo) =~= spec_enc_rings(rs, bo) + spec_enc_ls_body(
            r,
            bo,
        ));
    } else {
        assert(rs.push(r).skip(1) =~= rs.skip(1).push(r));
        lemma_enc_rings_push(rs.skip(1), r, bo);
        assert(spec_enc_rings(rs.push(r), bo) =~= spec_enc_rings(rs, bo) + spec_enc_ls_body(
            r,
            bo,
        ));
    }
}

/// Appending one framed Point appends its encoding.
pub proof fn lemma_enc_points_push(ps: Seq<PointModel>, p: PointModel, bo: Endianness)
    ensures
        spec_enc_points(ps.push(p), bo) == spec_enc_points(ps, bo) + spec_enc_point(p, bo),
    decreases ps.len(),
{
    reveal_with_fuel(spec_enc_points, 3);
    if ps.len() == 0 {
        assert(ps.push(p).skip(1) =~= Seq::<PointModel>::empty());
        assert(spec_enc_points(ps.push(p), bo) =~= spec_enc_points(ps, bo) + spec_enc_point(
            p,
            bo,
        ));
    } else {
        assert(ps.push(p).skip(1) =~= ps.skip(1).push(p));
        lemma_enc_points_push(ps.skip(1), p, bo);
        assert(spec_enc_points(ps.push(p), bo) =~= spec_enc_points(ps, bo) + spec_enc_point(
            p,
            bo,
        ));
    }
}

/// Appending one headerless Polygon body appends its encoding.
pub proof fn lemma_enc_polys_push(
    ps: Seq<Seq<Seq<Seq<u64>>>>,
    p: Seq<Seq<Seq<u64>>>,
    bo: Endianness,
)
    ensures
        spec_enc_polys(ps.push(p), bo) == spec_enc_polys(ps, bo) + spec_enc_poly_body(p, bo),
    decreases ps.len(),
{
    reveal_with_fuel(spec_enc_polys, 3);
    if ps.len() == 0 {
        assert(ps.push(p).skip(1) =~= Seq::<Seq<Seq<Seq<u64>>>>::empty());
        assert(spec_enc_polys(ps.push(p), bo) =~= spec_enc_polys(ps, bo) + spec_enc_poly_body(
            p,
            bo,
        ));
    } else {
        assert(ps.push(p).skip(1) =~= ps.skip(1).push(p));
        lemma_enc_polys_push(ps.skip(1), p, bo);
        assert(spec_enc_polys(ps.push(p), bo) =~= spec_enc_polys(ps, bo) + spec_enc_poly_body(
            p,
            bo,
        ));
    }
}

/// Appending one framed geometry appends its encoding.
pub proof fn lemma_enc_geoms_push(gs: Seq<GeomModel>, g: GeomModel, bo: Endianness)
    ensures
        spec_enc_geoms(gs.push(g), bo) == spec_enc_geoms(gs, bo) + spec_enc(g, bo),
    decreases gs.len(),
{
    reveal_with_fuel(spec_enc_geoms, 3);
    if gs.len() == 0 {
        assert(gs.push(g).skip(1) =~= Seq::<GeomModel>::empty());
        assert(spec_enc_geoms(gs.push(g), bo) =~= spec_enc_geoms(gs, bo) + spec_enc(g, bo));
    } else {
        assert(gs.push(g).skip(1) =~= gs.skip(1).push(g));
        lemma_enc_geoms_push(gs.skip(1), g, bo);
        assert(spec_enc_geoms(gs.push(g), bo) =~= spec_enc_geoms(gs, bo) + spec_enc(g, bo));
    }
}

/// Truncation rejection, header: cutting any buffer before the five-byte
/// header's end makes decoding fail.
pub proof fn lemma_truncated_header_rejected(b: Seq<u8>, m: int)
    requires
        0 <= m < 5,
        m <= b.len(),
    ensures
        spec_decode(b.subrange(0, m)) is None,
{
}

/// Truncation rejection, Point: cutting the encoding of a well-formed Point
/// anywhere before its end makes decoding fail.
#[verifier::rlimit(100)]
#[verifier::spinoff_prover]
pub proof fn lemma_truncated_point_rejected(p: PointModel, bo: Endianness, m: int)
    requires
        wf_point(p),
        0 <= m < spec_enc_point(p, bo).len(),
    ensures
        spec_decode(spec_enc_point(p, bo).subrange(0, m)) is None,
{
    let e = spec_enc_point(p, bo);
    let t = e.subrange(0, m);
    lemma_dec_of_enc_point(p, bo, Seq::empty());
    if m >= 5 {
        assert(t.subrange(0, 5) =~= spec_enc_header(GeometryType::Point, p.dim, bo)) by {
            assert(e + Seq::<u8>::empty() =~= e);
            assert forall|k: int| 0 <= k < 5 implies #[trigger] t.subrange(0, 5)[k] == e.subrange(
                0,
                5,
            )[k] by {}
        }
        lemma_header_of_enc(GeometryType::Point, p.dim, bo, t);
    }
}

} // verus!
