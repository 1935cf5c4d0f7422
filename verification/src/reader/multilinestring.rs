//! A framed WKB MultiLineString: a run of headerless LineString bodies.

use vstd::prelude::*;

use crate::common::Dimension;
use crate::common::Endianness;
use crate::common::GeometryType;
use crate::common::spec_header;
use crate::error::{WkbError, WkbResult};
use crate::model::MultiLineStringModel;
use crate::model::spec_decode_mls_obj;
use crate::model::spec_decode_rings;
use crate::reader::linearring::LinearRing;
use crate::reader::polygon::spec_ring_views;
use crate::reader::util::has_srid;
use crate::reader::util::slice_range;
use crate::wire::read_u32_at;

verus! {

/// A WKB MultiLineString.
///
/// Its members are headerless LineString bodies (count plus coordinates,
/// with no byte-order or type prefix of their own), read with the parent's
/// byte order and dimension.
///
/// This has been preprocessed, so access to any internal coordinate is
/// `O(1)`.
#[derive(Debug, Clone)]
pub struct MultiLineString<'a> {
    /// A view for each of the internal line strings.
    wkb_line_strings: Vec<LinearRing<'a>>,
    /// The underlying buffer, trimmed to this MultiLineString's exact extent.
    buf: &'a [u8],
    byte_order: Endianness,
    dim: Dimension,
}

impl<'a> View for MultiLineString<'a> {
    type V = MultiLineStringModel;

    /// The MultiLineString this view denotes.
    closed spec fn view(&self) -> MultiLineStringModel {
        MultiLineStringModel { dim: self.dim, lines: spec_ring_views(self.wkb_line_strings@) }
    }
}

impl<'a> MultiLineString<'a> {
    /// The trimmed buffer region this view reads.
    pub closed spec fn spec_buf(&self) -> Seq<u8> {
        self.buf@
    }

    /// The byte order this view reads with.
    pub closed spec fn spec_byte_order(&self) -> Endianness {
        self.byte_order
    }

    /// The dimension of this view.
    pub closed spec fn spec_dim(&self) -> Dimension {
        self.dim
    }

    /// Every member view is well formed and reads with this geometry's byte
    /// order and dimension.
    pub closed spec fn wf(&self) -> bool {
        forall|i: int|
            0 <= i < self.wkb_line_strings@.len() ==> (#[trigger] self.wkb_line_strings@[i]).wf()
                && self.wkb_line_strings@[i].spec_byte_order() == self.byte_order
                && self.wkb_line_strings@[i].spec_dim() == self.dim
    }

    /// Construct a new MultiLineString from a WKB buffer whose header has
    /// already been decoded by the caller.
    #[verifier::loop_isolation(false)]
    #[verifier::rlimit(100)]
    pub(crate) fn try_new(buf: &'a [u8], byte_order: Endianness, dim: Dimension) -> (r: WkbResult<
        Self,
    >)
        requires
            spec_header(buf@) matches Some(h) && h.byte_order == byte_order && h.dim == dim
                && h.kind == GeometryType::MultiLineString,
        ensures
            match r {
                Ok(m) => {
                    &&& m.wf()
                    &&& m.spec_byte_order() == byte_order
                    &&& m.spec_dim() == dim
                    &&& m.spec_buf().len() <= buf@.len()
                    &&& m.spec_buf() == buf@.subrange(0, m.spec_buf().len() as int)
                    &&& spec_decode_mls_obj(buf@) == Some((m@, m.spec_buf().len() as nat))
                },
                Err(_) => spec_decode_mls_obj(buf@) is None,
            },
    {
        let has_srid = has_srid(buf, byte_order);
        let num_line_strings_offset: usize = if has_srid {
            9
        } else {
            5
        };
        if buf.len() < num_line_strings_offset + 4 {
            return Err(
                WkbError::BufferTooShort {
                    expected: (num_line_strings_offset + 4) as u64,
                    actual: buf.len() as u64,
                },
            );
        }
        let num_line_strings_u32 = read_u32_at(buf, num_line_strings_offset, byte_order);
        proof {
            let off = num_line_strings_offset as int;
            assert(buf@.skip(off).subrange(0, 4) =~= buf@.subrange(off, off + 4));
        }
        if num_line_strings_u32 as u64 > usize::MAX as u64 {
            return Err(WkbError::InvalidCount(num_line_strings_u32 as u64));
        }
        let num_line_strings = num_line_strings_u32 as usize;
        let body_off = num_line_strings_offset + 4;
        let ghost body = buf@.skip(body_off as int);

        let mut wkb_line_strings: Vec<LinearRing<'a>> = Vec::new();
        let mut line_string_offset: usize = body_off;
        let mut i: usize = 0;
        proof {
            assert(buf@.skip(num_line_strings_offset as int).skip(4) =~= body);
        }
        while i < num_line_strings
            invariant
                i <= num_line_strings,
                wkb_line_strings@.len() == i,
                body_off <= line_string_offset <= buf@.len(),
                forall|k: int|
                    0 <= k < i ==> (#[trigger] wkb_line_strings@[k]).wf()
                        && wkb_line_strings@[k].spec_byte_order() == byte_order
                        && wkb_line_strings@[k].spec_dim() == dim,
                match spec_decode_rings(
                    buf@.skip(line_string_offset as int),
                    byte_order,
                    dim,
                    (num_line_strings - i) as nat,
                ) {
                    Some((rest, used2)) => spec_decode_rings(
                        body,
                        byte_order,
                        dim,
                        num_line_strings as nat,
                    ) == Some(
                        (
                            spec_ring_views(wkb_line_strings@) + rest,
                            (line_string_offset - body_off) as nat + used2,
                        ),
                    ),
                    None => spec_decode_rings(body, byte_order, dim, num_line_strings as nat)
                        is None,
                },
            decreases num_line_strings - i,
        {
            let suffix = slice_range(buf, line_string_offset, buf.len());
            let ls = match LinearRing::try_new(suffix, byte_order, dim) {
                Ok(ls) => ls,
                Err(e) => {
                    return Err(e);
                },
            };
            let ls_len = ls.size() as usize;
            proof {
                assert(buf@.skip(line_string_offset as int).skip(ls_len as int) =~= buf@.skip(
                    line_string_offset as int + ls_len as int,
                ));
                assert(spec_ring_views(wkb_line_strings@.push(ls)) =~= spec_ring_views(
                    wkb_line_strings@,
                ) + seq![ls@]);
                let m = (num_line_strings - i) as nat;
                let tail = buf@.skip(line_string_offset as int + ls_len as int);
                match spec_decode_rings(tail, byte_order, dim, (m - 1) as nat) {
                    Some((rest2, used3)) => {
                        assert((spec_ring_views(wkb_line_strings@) + seq![ls@]) + rest2
                            =~= spec_ring_views(wkb_line_strings@) + (seq![ls@] + rest2));
                    },
                    None => {},
                }
            }
            line_string_offset = line_string_offset + ls_len;
            wkb_line_strings.push(ls);
            i = i + 1;
        }

        let trimmed: &[u8] = slice_range(buf, 0, line_string_offset);
        let m = Self { wkb_line_strings, buf: trimmed, byte_order, dim };
        proof {
            assert(spec_ring_views(m.wkb_line_strings@) + Seq::<Seq<Seq<u64>>>::empty()
                =~= spec_ring_views(m.wkb_line_strings@));
        }
        Ok(m)
    }

    /// The number of bytes in this object, including any header.
    #[inline]
    pub fn size(&self) -> (r: u64)
        ensures
            r == self.spec_buf().len(),
    {
        self.buf.len() as u64
    }

    /// The dimension of this MultiLineString.
    #[inline]
    pub fn dimension(&self) -> (r: Dimension)
        ensures
            r == self.spec_dim(),
    {
        self.dim
    }

    /// Get the byte order of this WKB MultiLineString.
    #[inline]
    pub fn byte_order(&self) -> (r: Endianness)
        ensures
            r == self.spec_byte_order(),
    {
        self.byte_order
    }

    /// Get the underlying buffer of this MultiLineString.
    #[inline]
    pub fn buf(&self) -> (r: &'a [u8])
        ensures
            r@ == self.spec_buf(),
    {
        self.buf
    }

    /// The number of member line strings.
    #[inline]
    pub fn num_line_strings(&self) -> (r: usize)
        ensures
            r == self@.lines.len(),
    {
        self.wkb_line_strings.len()
    }

    /// The `i`th member line string; the caller must keep `i` within the
    /// declared count.
    #[inline]
    pub fn line_string_unchecked(&self, i: usize) -> (r: &LinearRing<'a>)
        requires
            self.wf(),
            i < self@.lines.len(),
        ensures
            r.wf(),
            r@ == self@.lines[i as int],
            r.spec_dim() == self.spec_dim(),
    {
        &self.wkb_line_strings[i]
    }

    /// The `i`th member line string, or `None` past the declared count.
    #[inline]
    pub fn line_string(&self, i: usize) -> (r: Option<&LinearRing<'a>>)
        requires
            self.wf(),
        ensures
            match r {
                Some(ls) => i < self@.lines.len() && ls.wf() && ls@ == self@.lines[i as int]
                    && ls.spec_dim() == self.spec_dim(),
                None => i >= self@.lines.len(),
            },
    {
        if i < self.wkb_line_strings.len() {
            Some(self.line_string_unchecked(i))
        } else {
            None
        }
    }
}

/// The dimension field of a MultiLineString's model is the view's dimension.
pub proof fn lemma_mls_view_dim<'a>(m: MultiLineString<'a>)
    ensures
        m@.dim == m.spec_dim(),
{
}

} // verus!
