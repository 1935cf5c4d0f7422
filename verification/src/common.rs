//! Shared vocabulary of the codec: byte order, coordinate dimension, the
//! geometry kinds, and the five-byte WKB header.

use vstd::prelude::*;

use crate::error::{WkbError, WkbResult};
use crate::wire::spec_word32;
use crate::wire::read_u32_at;

verus! {

/// Bit flag for an EWKB geometry with a z coordinate.
pub const EWKB_FLAG_Z: u32 = 0x80000000;

/// Bit flag for an EWKB geometry with an m coordinate.
pub const EWKB_FLAG_M: u32 = 0x40000000;

/// Bit flag for an EWKB geometry with an embedded SRID.
pub const EWKB_FLAG_SRID: u32 = 0x20000000;

/// Supported WKB dimensions.
#[derive(Debug, Clone, Copy, PartialEq, Eq, Structural)]
pub enum Dimension {
    Xy,
    Xyz,
    Xym,
    Xyzm,
}

/// The number of ordinates of a coordinate of dimension `d`.
pub open spec fn spec_dim_size(d: Dimension) -> nat {
    match d {
        Dimension::Xy => 2,
        Dimension::Xyz => 3,
        Dimension::Xym => 3,
        Dimension::Xyzm => 4,
    }
}

/// The ISO WKB type-code offset of dimension `d`.
pub open spec fn spec_dim_offset(d: Dimension) -> u32 {
    match d {
        Dimension::Xy => 0,
        Dimension::Xyz => 1000,
        Dimension::Xym => 2000,
        Dimension::Xyzm => 3000,
    }
}

impl Dimension {
    /// The number of ordinates per coordinate: 2, 3 or 4.
    pub fn size(&self) -> (r: usize)
        ensures
            r == spec_dim_size(*self),
            2 <= r <= 4,
    {
        match self {
            Self::Xy => 2,
            Self::Xyz | Self::Xym => 3,
            Self::Xyzm => 4,
        }
    }

    /// The ISO WKB type-code offset that encodes this dimension.
    pub fn as_u32_offset(&self) -> (r: u32)
        ensures
            r == spec_dim_offset(*self),
    {
        match self {
            Self::Xy => 0,
            Self::Xyz => 1000,
            Self::Xym => 2000,
            Self::Xyzm => 3000,
        }
    }
}

/// Byte order of a WKB buffer region.
#[derive(Debug, Clone, Copy, PartialEq, Eq, Structural, Default)]
pub enum Endianness {
    BigEndian,
    #[default]
    LittleEndian,
}

/// The endianness denoted by a one-byte marker: 0 is big, 1 is little, and
/// every other value is invalid.
pub open spec fn spec_marker(m: u8) -> Option<Endianness> {
    if m == 0 {
        Some(Endianness::BigEndian)
    } else if m == 1 {
        Some(Endianness::LittleEndian)
    } else {
        None
    }
}

/// The marker byte that denotes this endianness.
pub open spec fn spec_marker_byte(bo: Endianness) -> u8 {
    match bo {
        Endianness::BigEndian => 0,
        Endianness::LittleEndian => 1,
    }
}

impl Endianness {
    /// The one-byte marker written at the start of a WKB object.
    pub fn marker_byte(&self) -> (r: u8)
        ensures
            r == spec_marker_byte(*self),
    {
        match self {
            Self::BigEndian => 0,
            Self::LittleEndian => 1,
        }
    }
}

/// The geometry type of a WKB object.
///
/// This is marked as non exhaustive because extended WKB types, such as
/// curves, are not supported.
#[derive(Debug, Clone, Copy, PartialEq, Eq, Hash, Structural)]
#[non_exhaustive]
pub enum GeometryType {
    /// A WKB Point
    Point,
    /// A WKB LineString
    LineString,
    /// A WKB Polygon
    Polygon,
    /// A WKB MultiPoint
    MultiPoint,
    /// A WKB MultiLineString
    MultiLineString,
    /// A WKB MultiPolygon
    MultiPolygon,
    /// A WKB GeometryCollection
    GeometryCollection,
}

/// The base type code (1 through 7) of a geometry kind.
pub open spec fn spec_kind_base(k: GeometryType) -> u32 {
    match k {
        GeometryType::Point => 1,
        GeometryType::LineString => 2,
        GeometryType::Polygon => 3,
        GeometryType::MultiPoint => 4,
        GeometryType::MultiLineString => 5,
        GeometryType::MultiPolygon => 6,
        GeometryType::GeometryCollection => 7,
    }
}

/// The geometry kind selected by the low three bits of a type code, if any.
pub open spec fn spec_code_kind(code: u32) -> Option<GeometryType> {
    let k = code & 0x7;
    if k == 1 {
        Some(GeometryType::Point)
    } else if k == 2 {
        Some(GeometryType::LineString)
    } else if k == 3 {
        Some(GeometryType::Polygon)
    } else if k == 4 {
        Some(GeometryType::MultiPoint)
    } else if k == 5 {
        Some(GeometryType::MultiLineString)
    } else if k == 6 {
        Some(GeometryType::MultiPolygon)
    } else if k == 7 {
        Some(GeometryType::GeometryCollection)
    } else {
        None
    }
}

/// The dimension encoded by a type code: the EWKB bit flags take precedence
/// over the ISO magnitude bands.
pub open spec fn spec_code_dim(code: u32) -> Dimension {
    let z = code & EWKB_FLAG_Z == EWKB_FLAG_Z;
    let m = code & EWKB_FLAG_M == EWKB_FLAG_M;
    if z && m {
        Dimension::Xyzm
    } else if z {
        Dimension::Xyz
    } else if m {
        Dimension::Xym
    } else if code / 1000 == 1 {
        Dimension::Xyz
    } else if code / 1000 == 2 {
        Dimension::Xym
    } else if code / 1000 == 3 {
        Dimension::Xyzm
    } else {
        Dimension::Xy
    }
}

/// Whether a type code declares an embedded SRID.
pub open spec fn spec_code_srid(code: u32) -> bool {
    code & EWKB_FLAG_SRID == EWKB_FLAG_SRID
}

/// The decoded fields of a five-byte WKB header.
#[derive(Debug, Clone, Copy, PartialEq, Eq, Structural)]
pub struct WkbHeader {
    /// The byte order every following multi-byte field of the object uses.
    pub byte_order: Endianness,
    /// The geometry kind selected by the type code.
    pub kind: GeometryType,
    /// The dimension encoded by the type code.
    pub dim: Dimension,
    /// Whether a four-byte SRID follows the header.
    pub has_srid: bool,
}

/// The header denoted by the first five bytes of `b`, if they are valid.
pub open spec fn spec_header(b: Seq<u8>) -> Option<WkbHeader> {
    if b.len() < 5 {
        None
    } else {
        match spec_marker(b[0]) {
            None => None,
            Some(bo) => {
                let code = spec_word32(b.subrange(1, 5), bo);
                match spec_code_kind(code) {
                    None => None,
                    Some(kind) => Some(
                        WkbHeader {
                            byte_order: bo,
                            kind,
                            dim: spec_code_dim(code),
                            has_srid: spec_code_srid(code),
                        },
                    ),
                }
            },
        }
    }
}

/// The byte length of the fixed prefix a header declares: five bytes, plus
/// four for the SRID when one is present.
pub open spec fn spec_header_len(h: WkbHeader) -> nat {
    if h.has_srid {
        9
    } else {
        5
    }
}

/// The error a malformed header produces, in the order the fields are read.
pub open spec fn spec_header_err(b: Seq<u8>) -> WkbError
    recommends
        spec_header(b) is None,
{
    if b.len() < 1 {
        WkbError::BufferTooShort { expected: 5, actual: 0 }
    } else if spec_marker(b[0]) is None {
        WkbError::InvalidByteOrder(b[0])
    } else if b.len() < 5 {
        WkbError::BufferTooShort { expected: 5, actual: b.len() as u64 }
    } else {
        WkbError::TypeCodeOutOfRange(spec_word32(b.subrange(1, 5), spec_marker(b[0]).unwrap()))
    }
}

/// Read and decode the five-byte header at the start of `buf`.
pub fn decode_header(buf: &[u8]) -> (r: WkbResult<WkbHeader>)
    ensures
        match r {
            Ok(h) => spec_header(buf@) == Some(h),
            Err(e) => spec_header(buf@) is None && e == spec_header_err(buf@),
        },
{
    if buf.len() < 1 {
        return Err(WkbError::BufferTooShort { expected: 5, actual: 0 });
    }
    let marker = buf[0];
    let byte_order = if marker == 0 {
        Endianness::BigEndian
    } else if marker == 1 {
        Endianness::LittleEndian
    } else {
        return Err(WkbError::InvalidByteOrder(marker));
    };
    if buf.len() < 5 {
        return Err(WkbError::BufferTooShort { expected: 5, actual: buf.len() as u64 });
    }
    let code = read_u32_at(buf, 1, byte_order);
    let geometry_code = WkbGeometryCode::new(code);
    let t = geometry_code.get_type()?;
    let (kind, dim) = match t {
        WkbType::Point(d) => (GeometryType::Point, d),
        WkbType::LineString(d) => (GeometryType::LineString, d),
        WkbType::Polygon(d) => (GeometryType::Polygon, d),
        WkbType::MultiPoint(d) => (GeometryType::MultiPoint, d),
        WkbType::MultiLineString(d) => (GeometryType::MultiLineString, d),
        WkbType::MultiPolygon(d) => (GeometryType::MultiPolygon, d),
        WkbType::GeometryCollection(d) => (GeometryType::GeometryCollection, d),
    };
    Ok(WkbHeader { byte_order, kind, dim, has_srid: geometry_code.has_srid() })
}

/// The geometry "code" of the WKB buffer.
///
/// This is the four-byte `u32` directly after the one-byte endianness.
///
/// In ISO WKB this tells the geometry type and dimension of the buffer.
/// In extended WKB this additionally informs whether there's a u32 SRID
/// immediately after this, which the reader needs to know to skip.
#[derive(Debug, Clone, Copy, PartialEq, Eq, Structural)]
pub struct WkbGeometryCode(pub u32);

impl WkbGeometryCode {
    /// Wrap a raw four-byte type code.
    pub fn new(code: u32) -> (r: Self)
        ensures
            r.0 == code,
    {
        Self(code)
    }

    /// Whether the EWKB SRID flag is set.
    pub fn has_srid(&self) -> (r: bool)
        ensures
            r == spec_code_srid(self.0),
    {
        self.0 & EWKB_FLAG_SRID == EWKB_FLAG_SRID
    }

    /// Decode the code into a geometry kind and dimension; an unrecognised
    /// low-bits selector is a decode error.
    pub fn get_type(&self) -> (r: WkbResult<WkbType>)
        ensures
            match r {
                Ok(t) => spec_code_kind(self.0) == Some(t.kind()) && t.dimension() == spec_code_dim(
                    self.0,
                ),
                Err(e) => spec_code_kind(self.0) is None && e == WkbError::TypeCodeOutOfRange(
                    self.0,
                ),
            },
    {
        let code = self.0;
        let mut dim = Dimension::Xy;

        // For ISO WKB: values 1, 2, 3 are 2D, 1001, 1002, 1003 are XYZ,
        // 2001 etc are XYM, 3001 etc are XYZM.
        match code / 1000 {
            1 => dim = Dimension::Xyz,
            2 => dim = Dimension::Xym,
            3 => dim = Dimension::Xyzm,
            _ => (),
        };

        // For extended WKB, higher dimensions are provided via bit flags,
        // which take precedence over the magnitude bands.
        let is_ewkb_z = code & EWKB_FLAG_Z == EWKB_FLAG_Z;
        let is_ewkb_m = code & EWKB_FLAG_M == EWKB_FLAG_M;

        match (is_ewkb_z, is_ewkb_m) {
            (true, true) => dim = Dimension::Xyzm,
            (true, false) => dim = Dimension::Xyz,
            (false, true) => dim = Dimension::Xym,
            _ => (),
        }

        let typ = match code & 0x7 {
            1 => WkbType::Point(dim),
            2 => WkbType::LineString(dim),
            3 => WkbType::Polygon(dim),
            4 => WkbType::MultiPoint(dim),
            5 => WkbType::MultiLineString(dim),
            6 => WkbType::MultiPolygon(dim),
            7 => WkbType::GeometryCollection(dim),
            _ => {
                return Err(WkbError::TypeCodeOutOfRange(code));
            },
        };
        Ok(typ)
    }
}

/// The various WKB types supported by this crate.
#[derive(Debug, Clone, Copy, PartialEq, Eq, Structural)]
pub enum WkbType {
    /// A WKB Point
    Point(Dimension),
    /// A WKB LineString
    LineString(Dimension),
    /// A WKB Polygon
    Polygon(Dimension),
    /// A WKB MultiPoint
    MultiPoint(Dimension),
    /// A WKB MultiLineString
    MultiLineString(Dimension),
    /// A WKB MultiPolygon
    MultiPolygon(Dimension),
    /// A WKB GeometryCollection
    GeometryCollection(Dimension),
}

impl WkbType {
    /// The geometry kind of this type.
    pub open spec fn kind(self) -> GeometryType {
        match self {
            Self::Point(_) => GeometryType::Point,
            Self::LineString(_) => GeometryType::LineString,
            Self::Polygon(_) => GeometryType::Polygon,
            Self::MultiPoint(_) => GeometryType::MultiPoint,
            Self::MultiLineString(_) => GeometryType::MultiLineString,
            Self::MultiPolygon(_) => GeometryType::MultiPolygon,
            Self::GeometryCollection(_) => GeometryType::GeometryCollection,
        }
    }

    /// The dimension of this type.
    pub open spec fn dimension(self) -> Dimension {
        match self {
            Self::Point(dim) => dim,
            Self::LineString(dim) => dim,
            Self::Polygon(dim) => dim,
            Self::MultiPoint(dim) => dim,
            Self::MultiLineString(dim) => dim,
            Self::MultiPolygon(dim) => dim,
            Self::GeometryCollection(dim) => dim,
        }
    }

    /// Construct from a byte slice representing a WKB geometry.
    pub fn from_buffer(buf: &[u8]) -> (r: WkbResult<Self>)
        ensures
            match r {
                Ok(t) => spec_header(buf@) matches Some(h) && h.kind == t.kind() && h.dim
                    == t.dimension(),
                Err(e) => spec_header(buf@) is None && e == spec_header_err(buf@),
            },
    {
        let header = decode_header(buf)?;
        let t = match header.kind {
            GeometryType::Point => WkbType::Point(header.dim),
            GeometryType::LineString => WkbType::LineString(header.dim),
            GeometryType::Polygon => WkbType::Polygon(header.dim),
            GeometryType::MultiPoint => WkbType::MultiPoint(header.dim),
            GeometryType::MultiLineString => WkbType::MultiLineString(header.dim),
            GeometryType::MultiPolygon => WkbType::MultiPolygon(header.dim),
            GeometryType::GeometryCollection => WkbType::GeometryCollection(header.dim),
        };
        Ok(t)
    }

    /// The ISO type code this type serializes as: the base code of the kind
    /// plus the magnitude offset of the dimension.
    pub fn as_geometry_code(&self) -> (r: WkbGeometryCode)
        ensures
            r.0 == spec_kind_base(self.kind()) + spec_dim_offset(self.dimension()),
    {
        let code = match self {
            Self::Point(dim) => 1 + dim.as_u32_offset(),
            Self::LineString(dim) => 2 + dim.as_u32_offset(),
            Self::Polygon(dim) => 3 + dim.as_u32_offset(),
            Self::MultiPoint(dim) => 4 + dim.as_u32_offset(),
            Self::MultiLineString(dim) => 5 + dim.as_u32_offset(),
            Self::MultiPolygon(dim) => 6 + dim.as_u32_offset(),
            Self::GeometryCollection(dim) => 7 + dim.as_u32_offset(),
        };
        WkbGeometryCode(code)
    }
}

} // verus!
