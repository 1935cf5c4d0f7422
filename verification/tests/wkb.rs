use wkb::geom::{
    OwnedCoord, OwnedGeometry, OwnedGeometryCollection, OwnedLineString, OwnedMultiLineString,
    OwnedMultiPoint, OwnedMultiPolygon, OwnedPoint, OwnedPolygon,
};
use wkb::reader::{read_wkb, Coord, LinearRing, Wkb, WkbInner};
use wkb::writer::{
    geometry_wkb_size, write_geometry, write_geometry_collection, write_line_string,
    write_multi_line_string, write_multi_point, write_multi_polygon, write_point, write_polygon,
    WriteOptions,
};
use wkb::{Dimension, Endianness};

// --- Test data ---

fn c2(x: f64, y: f64) -> OwnedCoord {
    OwnedCoord { ords: vec![x.to_bits(), y.to_bits()] }
}

fn point_2d() -> OwnedPoint {
    OwnedPoint { dim: Dimension::Xy, coord: Some(c2(0.0, 1.0)) }
}

fn linestring_2d() -> OwnedLineString {
    OwnedLineString { dim: Dimension::Xy, coords: vec![c2(0.0, 1.0), c2(1.0, 2.0)] }
}

fn polygon_2d() -> OwnedPolygon {
    OwnedPolygon {
        dim: Dimension::Xy,
        rings: vec![vec![c2(-111.0, 45.0), c2(-111.0, 41.0), c2(-104.0, 41.0), c2(-104.0, 45.0), c2(-111.0, 45.0)]],
    }
}

fn polygon_2d_with_interior() -> OwnedPolygon {
    OwnedPolygon {
        dim: Dimension::Xy,
        rings: vec![
            vec![c2(-111.0, 45.0), c2(-111.0, 41.0), c2(-104.0, 41.0), c2(-104.0, 45.0), c2(-111.0, 45.0)],
            vec![c2(-110.0, 44.0), c2(-110.0, 42.0), c2(-105.0, 42.0), c2(-105.0, 44.0), c2(-110.0, 44.0)],
        ],
    }
}

fn multi_point_2d() -> OwnedMultiPoint {
    OwnedMultiPoint {
        dim: Dimension::Xy,
        points: vec![
            OwnedPoint { dim: Dimension::Xy, coord: Some(c2(0.0, 1.0)) },
            OwnedPoint { dim: Dimension::Xy, coord: Some(c2(1.0, 2.0)) },
        ],
    }
}

fn multi_line_string_2d() -> OwnedMultiLineString {
    OwnedMultiLineString {
        dim: Dimension::Xy,
        lines: vec![
            vec![c2(-111.0, 45.0), c2(-111.0, 41.0), c2(-104.0, 41.0), c2(-104.0, 45.0)],
            vec![c2(-110.0, 44.0), c2(-110.0, 42.0), c2(-105.0, 42.0)],
        ],
    }
}

fn multi_polygon_2d() -> OwnedMultiPolygon {
    OwnedMultiPolygon {
        dim: Dimension::Xy,
        polygons: vec![polygon_2d().rings, polygon_2d_with_interior().rings],
    }
}

fn geometry_collection_2d() -> OwnedGeometryCollection {
    OwnedGeometryCollection {
        dim: Dimension::Xy,
        geometries: vec![
            OwnedGeometry::Point(point_2d()),
            OwnedGeometry::LineString(linestring_2d()),
            OwnedGeometry::Polygon(polygon_2d()),
        ],
    }
}

// --- Materialize a parsed view back into an owned geometry ---

fn owned_coord(c: &Coord) -> OwnedCoord {
    let n = c.dimension().size();
    let mut ords = Vec::new();
    let mut i = 0;
    while i < n {
        ords.push(c.nth_bits(i));
        i += 1;
    }
    OwnedCoord { ords }
}

fn owned_ring(r: &LinearRing) -> Vec<OwnedCoord> {
    let mut coords = Vec::new();
    let mut i = 0;
    while i < r.num_coords() {
        coords.push(owned_coord(&r.coord(i).unwrap()));
        i += 1;
    }
    coords
}

fn to_owned_geometry(w: &Wkb) -> OwnedGeometry {
    match w.as_type() {
        WkbInner::Point(p) => OwnedGeometry::Point(OwnedPoint {
            dim: p.dimension(),
            coord: p.coord().map(|c| owned_coord(&c)),
        }),
        WkbInner::LineString(ls) => {
            let mut coords = Vec::new();
            let mut i = 0;
            while i < ls.num_coords() {
                coords.push(owned_coord(&ls.coord(i).unwrap()));
                i += 1;
            }
            OwnedGeometry::LineString(OwnedLineString { dim: ls.dimension(), coords })
        }
        WkbInner::Polygon(p) => {
            let mut rings = Vec::new();
            let mut i = 0;
            while i < p.num_rings() {
                if i == 0 {
                    rings.push(owned_ring(p.exterior().unwrap()));
                } else {
                    rings.push(owned_ring(p.interior(i - 1).unwrap()));
                }
                i += 1;
            }
            OwnedGeometry::Polygon(OwnedPolygon { dim: p.dimension(), rings })
        }
        WkbInner::MultiPoint(mp) => {
            let mut points = Vec::new();
            let mut i = 0;
            while i < mp.num_points() {
                let p = mp.point(i).unwrap();
                points.push(OwnedPoint {
                    dim: p.dimension(),
                    coord: p.coord().map(|c| owned_coord(&c)),
                });
                i += 1;
            }
            OwnedGeometry::MultiPoint(OwnedMultiPoint { dim: mp.dimension(), points })
        }
        WkbInner::MultiLineString(mls) => {
            let mut lines = Vec::new();
            let mut i = 0;
            while i < mls.num_line_strings() {
                lines.push(owned_ring(mls.line_string(i).unwrap()));
                i += 1;
            }
            OwnedGeometry::MultiLineString(OwnedMultiLineString { dim: mls.dimension(), lines })
        }
        WkbInner::MultiPolygon(mp) => {
            let mut polygons = Vec::new();
            let mut i = 0;
            while i < mp.num_polygons() {
                let p = mp.polygon(i).unwrap();
                let mut rings = Vec::new();
                let mut j = 0;
                while j < p.num_rings() {
                    if j == 0 {
                        rings.push(owned_ring(p.exterior().unwrap()));
                    } else {
                        rings.push(owned_ring(p.interior(j - 1).unwrap()));
                    }
                    j += 1;
                }
                polygons.push(rings);
                i += 1;
            }
            OwnedGeometry::MultiPolygon(OwnedMultiPolygon { dim: mp.dimension(), polygons })
        }
        WkbInner::GeometryCollection(gc) => {
            let mut geometries = Vec::new();
            let mut i = 0;
            while i < gc.num_geometries() {
                geometries.push(to_owned_geometry(gc.geometry(i).unwrap()));
                i += 1;
            }
            OwnedGeometry::GeometryCollection(OwnedGeometryCollection {
                dim: gc.dimension(),
                geometries,
            })
        }
    }
}

fn opts(endianness: Endianness) -> WriteOptions {
    WriteOptions { endianness }
}

fn round_trip(orig: OwnedGeometry) {
    for endianness in [Endianness::LittleEndian, Endianness::BigEndian] {
        let mut buf = Vec::new();
        write_geometry(&mut buf, &orig, &opts(endianness)).unwrap();
        assert_eq!(geometry_wkb_size(&orig, &opts(endianness)).unwrap(), buf.len());
        let retour = read_wkb(&buf).unwrap();
        assert_eq!(orig, to_owned_geometry(&retour));
    }
}

// --- Round trips ---

#[test]
fn round_trip_point() {
    let orig = point_2d();
    let mut buf = Vec::new();
    write_point(&mut buf, &orig, &opts(Endianness::LittleEndian)).unwrap();
    let retour = read_wkb(&buf).unwrap();
    assert_eq!(OwnedGeometry::Point(orig.clone()), to_owned_geometry(&retour));

    // Big endian
    let mut buf = Vec::new();
    write_point(&mut buf, &orig, &opts(Endianness::BigEndian)).unwrap();
    let retour = read_wkb(&buf).unwrap();
    assert_eq!(OwnedGeometry::Point(orig), to_owned_geometry(&retour));
}

#[test]
fn round_trip_line_string() {
    let orig = linestring_2d();
    let mut buf = Vec::new();
    write_line_string(&mut buf, &orig, &opts(Endianness::LittleEndian)).unwrap();
    let retour = read_wkb(&buf).unwrap();
    assert_eq!(OwnedGeometry::LineString(orig.clone()), to_owned_geometry(&retour));

    // Big endian
    let mut buf = Vec::new();
    write_line_string(&mut buf, &orig, &opts(Endianness::BigEndian)).unwrap();
    let retour = read_wkb(&buf).unwrap();
    assert_eq!(OwnedGeometry::LineString(orig), to_owned_geometry(&retour));
}

#[test]
fn round_trip_polygon() {
    let orig = polygon_2d();
    let mut buf = Vec::new();
    write_polygon(&mut buf, &orig, &opts(Endianness::LittleEndian)).unwrap();
    let retour = read_wkb(&buf).unwrap();
    assert_eq!(OwnedGeometry::Polygon(orig.clone()), to_owned_geometry(&retour));

    // Big endian
    let mut buf = Vec::new();
    write_polygon(&mut buf, &orig, &opts(Endianness::BigEndian)).unwrap();
    let retour = read_wkb(&buf).unwrap();
    assert_eq!(OwnedGeometry::Polygon(orig), to_owned_geometry(&retour));
}

#[test]
fn round_trip_polygon_with_interior() {
    round_trip(OwnedGeometry::Polygon(polygon_2d_with_interior()));
}

#[test]
fn round_trip_multi_point() {
    let orig = multi_point_2d();
    let mut buf = Vec::new();
    write_multi_point(&mut buf, &orig, &opts(Endianness::LittleEndian)).unwrap();
    let retour = read_wkb(&buf).unwrap();
    assert_eq!(OwnedGeometry::MultiPoint(orig.clone()), to_owned_geometry(&retour));

    // Big endian
    let mut buf = Vec::new();
    write_multi_point(&mut buf, &orig, &opts(Endianness::BigEndian)).unwrap();
    let retour = read_wkb(&buf).unwrap();
    assert_eq!(OwnedGeometry::MultiPoint(orig), to_owned_geometry(&retour));
}

#[test]
fn round_trip_multi_line_string() {
    let orig = multi_line_string_2d();
    let mut buf = Vec::new();
    write_multi_line_string(&mut buf, &orig, &opts(Endianness::LittleEndian)).unwrap();
    let retour = read_wkb(&buf).unwrap();
    assert_eq!(OwnedGeometry::MultiLineString(orig.clone()), to_owned_geometry(&retour));

    // Big endian
    let mut buf = Vec::new();
    write_multi_line_string(&mut buf, &orig, &opts(Endianness::BigEndian)).unwrap();
    let retour = read_wkb(&buf).unwrap();
    assert_eq!(OwnedGeometry::MultiLineString(orig), to_owned_geometry(&retour));
}

#[test]
fn round_trip_multi_polygon() {
    let orig = multi_polygon_2d();
    let mut buf = Vec::new();
    write_multi_polygon(&mut buf, &orig, &opts(Endianness::LittleEndian)).unwrap();
    let retour = read_wkb(&buf).unwrap();
    assert_eq!(OwnedGeometry::MultiPolygon(orig.clone()), to_owned_geometry(&retour));

    // Big endian
    let mut buf = Vec::new();
    write_multi_polygon(&mut buf, &orig, &opts(Endianness::BigEndian)).unwrap();
    let retour = read_wkb(&buf).unwrap();
    assert_eq!(OwnedGeometry::MultiPolygon(orig), to_owned_geometry(&retour));
}

#[test]
fn round_trip_geometry_collection() {
    let orig = geometry_collection_2d();
    let mut buf = Vec::new();
    write_geometry_collection(&mut buf, &orig, &opts(Endianness::LittleEndian)).unwrap();
    let retour = read_wkb(&buf).unwrap();
    match to_owned_geometry(&retour) {
        OwnedGeometry::GeometryCollection(gc) => assert_eq!(orig, gc),
        _ => panic!("expected a GeometryCollection"),
    }

    // Big endian
    let orig = geometry_collection_2d();
    let mut buf = Vec::new();
    write_geometry_collection(&mut buf, &orig, &opts(Endianness::BigEndian)).unwrap();
    let retour = read_wkb(&buf).unwrap();
    match to_owned_geometry(&retour) {
        OwnedGeometry::GeometryCollection(gc) => assert_eq!(orig, gc),
        _ => panic!("expected a GeometryCollection"),
    }
}

// --- Coordinate slices ---

#[test]
fn wkb_point_coord() {
    let p = point_2d();
    let mut buf = Vec::new();
    write_point(&mut buf, &p, &opts(Endianness::LittleEndian)).unwrap();
    let wkb = read_wkb(&buf).unwrap();
    let WkbInner::Point(point) = wkb.as_type() else {
        panic!("Expected Point");
    };
    let coord_slice = point.coord_slice();
    let x = f64::from_le_bytes(coord_slice[0..8].try_into().unwrap());
    let y = f64::from_le_bytes(coord_slice[8..16].try_into().unwrap());
    assert_eq!(x, 0.0);
    assert_eq!(y, 1.0);
    let coord = point.coord().unwrap();
    assert_eq!(f64::from_bits(coord.x_bits()), x);
    assert_eq!(f64::from_bits(coord.y_bits()), y);
}

#[test]
fn wkb_linestring_coords() {
    let ls = linestring_2d();
    let mut buf = Vec::new();
    write_line_string(&mut buf, &ls, &opts(Endianness::LittleEndian)).unwrap();
    let wkb = read_wkb(&buf).unwrap();
    let WkbInner::LineString(line_string) = wkb.as_type() else {
        panic!("Expected LineString");
    };
    let coord_slice = line_string.coords_slice();
    assert_eq!(coord_slice.len(), 32);
    let x0 = f64::from_le_bytes(coord_slice[0..8].try_into().unwrap());
    let y0 = f64::from_le_bytes(coord_slice[8..16].try_into().unwrap());
    let x1 = f64::from_le_bytes(coord_slice[16..24].try_into().unwrap());
    let y1 = f64::from_le_bytes(coord_slice[24..32].try_into().unwrap());
    assert_eq!(x0, 0.0);
    assert_eq!(y0, 1.0);
    assert_eq!(x1, 1.0);
    assert_eq!(y1, 2.0);
    let coord0 = line_string.coord(0).unwrap();
    let coord1 = line_string.coord(1).unwrap();
    assert_eq!(f64::from_bits(coord0.x_bits()), x0);
    assert_eq!(f64::from_bits(coord0.y_bits()), y0);
    assert_eq!(f64::from_bits(coord1.x_bits()), x1);
    assert_eq!(f64::from_bits(coord1.y_bits()), y1);
}

#[test]
fn wkb_polygon_coords() {
    let poly = polygon_2d();
    let mut buf = Vec::new();
    write_polygon(&mut buf, &poly, &opts(Endianness::LittleEndian)).unwrap();
    let wkb = read_wkb(&buf).unwrap();
    let WkbInner::Polygon(polygon) = wkb.as_type() else {
        panic!("Expected Polygon");
    };
    let exterior = polygon.exterior().unwrap();
    let coord_slice = exterior.coords_slice();
    assert_eq!(coord_slice.len(), 8 * 2 * exterior.num_coords());
    for k in 0..exterior.num_coords() {
        let x = f64::from_le_bytes(coord_slice[16 * k..16 * k + 8].try_into().unwrap());
        let y = f64::from_le_bytes(coord_slice[16 * k + 8..16 * k + 16].try_into().unwrap());
        let coord = exterior.coord(k).unwrap();
        assert_eq!(x, f64::from_bits(coord.x_bits()));
        assert_eq!(y, f64::from_bits(coord.y_bits()));
    }
}

// --- Decoding raw buffers ---

#[test]
fn wkb_geo_traits_lifetime() {
    // WKB representation of a LineString with 2 points at (1.0, 2.0) and (3.0, 4.0)
    let buf = vec![
        0x01, // little endian
        0x02, 0x00, 0x00, 0x00, // type: LineString (2)
        0x02, 0x00, 0x00, 0x00, // 2 points
        0x00, 0x00, 0x00, 0x00, 0x00, 0x00, 0xF0, 0x3F, // x: 1.0
        0x00, 0x00, 0x00, 0x00, 0x00, 0x00, 0x00, 0x40, // y: 2.0
        0x00, 0x00, 0x00, 0x00, 0x00, 0x00, 0xF0, 0x3F, // x: 3.0
        0x00, 0x00, 0x00, 0x00, 0x00, 0x00, 0x00, 0x40, // y: 4.0
    ];

    let wkb = read_wkb(&buf).unwrap();
    let coord = match wkb.as_type() {
        WkbInner::LineString(line_string) => line_string.coord(0),
        _ => panic!("Expected LineString"),
    };

    assert!(coord.is_some());
    assert_eq!(f64::from_bits(coord.unwrap().x_bits()), 1.0);
    assert_eq!(f64::from_bits(coord.unwrap().y_bits()), 2.0);
}

#[test]
fn wkb_geo_traits_specialized_lifetime() {
    let buf = vec![
        0x01, // little endian
        0x01, 0x00, 0x00, 0x00, // type: Point (1)
        0x00, 0x00, 0x00, 0x00, 0x00, 0x00, 0xF0, 0x3F, // x: 1.0
        0x00, 0x00, 0x00, 0x00, 0x00, 0x00, 0x00, 0x40, // y: 2.0
    ];
    let wkb = read_wkb(&buf).unwrap();
    let WkbInner::Point(point) = wkb.as_type() else {
        panic!("Expected Point");
    };
    let coord = point.coord();

    assert!(coord.is_some());
    assert_eq!(f64::from_bits(coord.unwrap().x_bits()), 1.0);
    assert_eq!(f64::from_bits(coord.unwrap().y_bits()), 2.0);
}

// --- Trailing data ---

fn test_wkb_buf_with_trailing_data(g: &OwnedGeometry) {
    let mut buf: Vec<u8> = Vec::new();
    write_geometry(&mut buf, g, &opts(Endianness::LittleEndian)).unwrap();

    let original_len = buf.len();
    buf.extend_from_slice(&[0xFF, 0xFF, 0xFF, 0xFF]);

    let wkb = read_wkb(&buf).unwrap();
    let trimmed_buf = wkb.buf();
    assert_eq!(trimmed_buf.len(), original_len);

    let wkb2 = read_wkb(trimmed_buf).unwrap();
    assert_eq!(*g, to_owned_geometry(&wkb2));
}

#[test]
fn wkb_point_buf_with_trailing_data() {
    test_wkb_buf_with_trailing_data(&OwnedGeometry::Point(point_2d()));
}

#[test]
fn wkb_linestring_buf_with_trailing_data() {
    test_wkb_buf_with_trailing_data(&OwnedGeometry::LineString(linestring_2d()));
}

#[test]
fn wkb_polygon_buf_with_trailing_data() {
    test_wkb_buf_with_trailing_data(&OwnedGeometry::Polygon(polygon_2d()));
}

#[test]
fn wkb_polygon_with_interior_buf_with_trailing_data() {
    test_wkb_buf_with_trailing_data(&OwnedGeometry::Polygon(polygon_2d_with_interior()));
}

#[test]
fn wkb_multi_point_buf_with_trailing_data() {
    test_wkb_buf_with_trailing_data(&OwnedGeometry::MultiPoint(multi_point_2d()));
}

#[test]
fn wkb_multi_line_string_buf_with_trailing_data() {
    test_wkb_buf_with_trailing_data(&OwnedGeometry::MultiLineString(multi_line_string_2d()));
}

#[test]
fn wkb_multi_polygon_buf_with_trailing_data() {
    test_wkb_buf_with_trailing_data(&OwnedGeometry::MultiPolygon(multi_polygon_2d()));
}

#[test]
fn wkb_geometry_collection_buf_with_trailing_data() {
    test_wkb_buf_with_trailing_data(&OwnedGeometry::GeometryCollection(geometry_collection_2d()));
}

// --- Concrete wire-format scenarios ---

#[test]
fn scenario_point_le_exact_bytes() {
    // Point (0.0, 1.0), little endian.
    let mut expected = vec![0x01, 0x01, 0x00, 0x00, 0x00];
    expected.extend_from_slice(&0.0f64.to_le_bytes());
    expected.extend_from_slice(&1.0f64.to_le_bytes());

    let mut buf = Vec::new();
    write_point(&mut buf, &point_2d(), &opts(Endianness::LittleEndian)).unwrap();
    assert_eq!(buf, expected);

    let wkb = read_wkb(&expected).unwrap();
    assert_eq!(wkb.geometry_type(), wkb::GeometryType::Point);
    assert_eq!(wkb.dimension(), Dimension::Xy);
    let WkbInner::Point(p) = wkb.as_type() else {
        panic!("Expected Point");
    };
    let c = p.coord().unwrap();
    assert_eq!(f64::from_bits(c.x_bits()), 0.0);
    assert_eq!(f64::from_bits(c.y_bits()), 1.0);
}

#[test]
fn scenario_point_be_decodes_identically() {
    let mut be = vec![0x00, 0x00, 0x00, 0x00, 0x01];
    be.extend_from_slice(&0.0f64.to_be_bytes());
    be.extend_from_slice(&1.0f64.to_be_bytes());

    let wkb = read_wkb(&be).unwrap();
    assert_eq!(wkb.geometry_type(), wkb::GeometryType::Point);
    assert_eq!(wkb.dimension(), Dimension::Xy);
    let WkbInner::Point(p) = wkb.as_type() else {
        panic!("Expected Point");
    };
    let c = p.coord().unwrap();
    assert_eq!(f64::from_bits(c.x_bits()), 0.0);
    assert_eq!(f64::from_bits(c.y_bits()), 1.0);
}

#[test]
fn scenario_empty_point_roundtrip() {
    // An empty point is written as all-NaN ordinates and decodes back to a
    // point with no coordinate.
    let empty = OwnedPoint { dim: Dimension::Xy, coord: None };
    let mut buf = Vec::new();
    write_point(&mut buf, &empty, &opts(Endianness::LittleEndian)).unwrap();
    assert_eq!(buf.len(), 21);
    assert!(f64::from_le_bytes(buf[5..13].try_into().unwrap()).is_nan());
    assert!(f64::from_le_bytes(buf[13..21].try_into().unwrap()).is_nan());

    let wkb = read_wkb(&buf).unwrap();
    let WkbInner::Point(p) = wkb.as_type() else {
        panic!("Expected Point");
    };
    assert!(p.is_empty());
    assert!(p.coord().is_none());
}

#[test]
fn scenario_all_nan_coords_decode_as_empty_point() {
    let mut buf = vec![0x01, 0x01, 0x00, 0x00, 0x00];
    buf.extend_from_slice(&f64::NAN.to_le_bytes());
    buf.extend_from_slice(&f64::NAN.to_le_bytes());
    let wkb = read_wkb(&buf).unwrap();
    let WkbInner::Point(p) = wkb.as_type() else {
        panic!("Expected Point");
    };
    assert!(p.is_empty());
}

#[test]
fn scenario_empty_polygon_has_no_rings() {
    let empty = OwnedPolygon { dim: Dimension::Xy, rings: vec![] };
    let mut buf = Vec::new();
    write_polygon(&mut buf, &empty, &opts(Endianness::LittleEndian)).unwrap();
    assert_eq!(buf.len(), 9);

    let wkb = read_wkb(&buf).unwrap();
    let WkbInner::Polygon(p) = wkb.as_type() else {
        panic!("Expected Polygon");
    };
    assert!(p.exterior().is_none());
    assert_eq!(p.num_interiors(), 0);
    assert_eq!(p.num_rings(), 0);
}

#[test]
fn scenario_point_wkb_size() {
    assert_eq!(wkb::writer::point_wkb_size(Dimension::Xy), 21);
    assert_eq!(wkb::writer::point_wkb_size(Dimension::Xyz), 29);
    assert_eq!(wkb::writer::point_wkb_size(Dimension::Xyzm), 37);
}

#[test]
fn scenario_header_codec() {
    // The type code 3002 is a LineString (low bits 2) with an XYZM ISO band.
    let t = wkb::WkbType::LineString(Dimension::Xyzm);
    assert_eq!(t.as_geometry_code().0, 3002);
    assert!(!wkb::WkbGeometryCode::new(3002).has_srid());
    assert!(wkb::WkbGeometryCode::new(0x20000001).has_srid());
}
