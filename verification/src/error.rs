//! Decode failures surfaced to the caller as ordinary values.

use vstd::prelude::*;

verus! {

/// A failure while decoding (or sizing) a WKB buffer.
///
/// Every variant carries the scalar facts a caller needs to locate the
/// problem; none of them is ever a panic.
#[derive(Debug, Clone, Copy, PartialEq, Eq, Structural)]
pub enum WkbError {
    /// The one-byte endianness marker is neither 0 (big) nor 1 (little).
    InvalidByteOrder(u8),
    /// The low three bits of the four-byte type code select no supported kind.
    TypeCodeOutOfRange(u32),
    /// A fixed field (header, SRID, count) needs more bytes than remain.
    BufferTooShort { expected: u64, actual: u64 },
    /// A declared structure would end past the end of the buffer.
    InvalidBufferLength { expected_end: u64, buf_len: u64 },
    /// A declared element count cannot be represented: on decode, one whose
    /// value does not fit the platform size type; on encode, one that does
    /// not fit the wire's four-byte count field.
    InvalidCount(u64),
    /// A nested MultiPoint member carries a header other than a plain Point
    /// header with the parent's dimension.
    MismatchedChildHeader,
}

/// The `Result` alias used throughout the crate.
pub type WkbResult<T> = Result<T, WkbError>;

} // verus!
