//! A codec for the Well-Known Binary (WKB) geometry interchange format.
//!
//! The reader turns an untrusted byte buffer into structured, O(1)-indexable
//! geometry views without copying the buffer; the writer serializes an owned
//! geometry back into WKB bytes.

mod common;
pub mod error;
pub mod geom;
pub mod laws;
pub mod model;
pub mod reader;
pub mod writer;
pub mod wire;

pub use common::Dimension;
pub use common::Endianness;
pub use common::GeometryType;
pub use common::WkbGeometryCode;
pub use common::WkbHeader;
pub use common::WkbType;
pub use reader::read_wkb;
