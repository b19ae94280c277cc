//! The INDEX: a count, the size of an offset, `count + 1` offsets, and
//! the records laid end to end.
//!
//! Offsets count from 1, and offset 1 is the byte after the offset
//! array. Record `i` runs from offset `i` to offset `i + 1`; the last
//! offset is the end of the INDEX. An INDEX of no records is its count
//! alone, two bytes of zero.

use vstd::prelude::*;

use crate::error::FontError;
use crate::util::{u16_at, u32_at};

verus! {

/// The number of bytes that `count` offsets of `size` bytes each take:
/// `size * count`. It is spelled out for the sizes that an INDEX may
/// have, so that a product by a known size is a sum.
pub open spec fn span(size: int, count: int) -> int {
    if size == 1 {
        count
    } else if size == 2 {
        2 * count
    } else if size == 3 {
        3 * count
    } else if size == 4 {
        4 * count
    } else {
        size * count
    }
}

/// `span(size, count)` is the product of the two.
pub proof fn lemma_span(size: int, count: int)
    ensures
        span(size, count) == size * count,
{
    assert(1 * count == count && 2 * count == count + count && 3 * count == count + count
        + count && 4 * count == count + count + count + count) by (nonlinear_arith);
    if size == 1 {
        assert(size * count == 1 * count) by (nonlinear_arith)
            requires
                size == 1,
        ;
    } else if size == 2 {
        assert(size * count == 2 * count) by (nonlinear_arith)
            requires
                size == 2,
        ;
    } else if size == 3 {
        assert(size * count == 3 * count) by (nonlinear_arith)
            requires
                size == 3,
        ;
    } else if size == 4 {
        assert(size * count == 4 * count) by (nonlinear_arith)
            requires
                size == 4,
        ;
    }
}

/// The offset of `size` bytes, 1 to 4, that starts at `s[at]`.
pub open spec fn offset_value(s: Seq<u8>, at: int, size: int) -> int {
    if size == 1 {
        s[at] as int
    } else if size == 2 {
        u16_at(s, at)
    } else if size == 3 {
        s[at] as int * 0x1_0000 + u16_at(s, at + 1)
    } else {
        u32_at(s, at)
    }
}

/// What reading an offset of `size` bytes at `s[at]` comes to.
pub open spec fn offset_read(s: Seq<u8>, at: int, size: u8) -> Result<u32, FontError> {
    if size < 1 || size > 4 {
        Err(FontError::CffBadOffset)
    } else if at + size > s.len() {
        Err(FontError::UnexpectedEof)
    } else {
        Ok(offset_value(s, at, size as int) as u32)
    }
}

/// What a look into an INDEX finds: the length of the record, if there
/// is one, and the place where the cursor is left.
pub struct Found {
    /// The length of the record; `None` where the INDEX has no such record.
    pub length: Option<u32>,
    /// The record's first byte; the end of the INDEX where it has no such
    /// record.
    pub at: int,
}

/// What looking for record `index` in the INDEX that starts at `s[at]`
/// comes to.
///
/// Only the count and the two offsets round the record are read, and
/// nothing is taken on trust: an offset array or a record that would
/// reach beyond the data, and a record that would end before it starts,
/// are reported as the end of the data.
pub open spec fn index_lookup(s: Seq<u8>, at: int, index: u16) -> Result<Found, FontError> {
    if at + 2 > s.len() {
        Err(FontError::UnexpectedEof)
    } else if u16_at(s, at) == 0 {
        Ok(Found { length: None, at: at + 2 })
    } else if at + 3 > s.len() {
        Err(FontError::UnexpectedEof)
    } else {
        let count = u16_at(s, at);
        let size = s[at + 2];
        let slot = if index < count {
            index as int
        } else {
            count
        };
        let first = at + 3 + span(size as int, slot);
        if first > s.len() {
            Err(FontError::UnexpectedEof)
        } else {
            match offset_read(s, first, size) {
                Err(e) => Err(e),
                Ok(start) => {
                    let landing = at + 3 + span(size as int, count + 1) + start - 1;
                    if index < count {
                        match offset_read(s, first + size, size) {
                            Err(e) => Err(e),
                            Ok(end) => if end < start || landing > s.len() {
                                Err(FontError::UnexpectedEof)
                            } else {
                                Ok(Found { length: Some((end - start) as u32), at: landing })
                            },
                        }
                    } else if landing > s.len() {
                        Err(FontError::UnexpectedEof)
                    } else {
                        Ok(Found { length: None, at: landing })
                    }
                },
            }
        }
    }
}

/// The count of the INDEX at `s[at]`.
pub open spec fn index_count(s: Seq<u8>, at: int) -> int {
    u16_at(s, at)
}

/// The size of an offset in the INDEX at `s[at]`.
pub open spec fn index_offset_size(s: Seq<u8>, at: int) -> int {
    s[at + 2] as int
}

/// Offset `i` of the INDEX at `s[at]`.
pub open spec fn index_offset(s: Seq<u8>, at: int, i: int) -> int {
    offset_value(s, at + 3 + span(index_offset_size(s, at), i), index_offset_size(s, at))
}

/// The place that an offset of 0 would stand for in the INDEX at `s[at]`:
/// the last byte of its offset array.
pub open spec fn index_base(s: Seq<u8>, at: int) -> int {
    at + 3 + span(index_offset_size(s, at), index_count(s, at) + 1) - 1
}

/// Whether a well-formed INDEX with at least one record starts at
/// `s[at]`: its offsets are of 1 to 4 bytes, start at 1 or later, never
/// decrease, and all of it lies within `s`.
pub open spec fn is_index(s: Seq<u8>, at: int) -> bool {
    &&& 0 <= at
    &&& at + 3 <= s.len()
    &&& index_count(s, at) >= 1
    &&& 1 <= index_offset_size(s, at) <= 4
    &&& index_base(s, at) + 1 <= s.len()
    &&& index_offset(s, at, 0) >= 1
    &&& forall|i: int|
        0 <= i < index_count(s, at) ==> #[trigger] index_offset(s, at, i) <= index_offset(
            s,
            at,
            i + 1,
        )
    &&& index_base(s, at) + index_offset(s, at, index_count(s, at)) <= s.len()
}

/// In a well-formed INDEX no offset is greater than a later one.
pub proof fn lemma_offsets_ordered(s: Seq<u8>, at: int, i: int, j: int)
    requires
        is_index(s, at),
        0 <= i <= j <= index_count(s, at),
    ensures
        index_offset(s, at, i) <= index_offset(s, at, j),
    decreases j - i,
{
    if i < j {
        lemma_offsets_ordered(s, at, i + 1, j);
    }
}

/// In a well-formed INDEX every record is found where its two offsets
/// say, with the length that they say, and beyond the last record
/// nothing is found and the cursor is left at the end of the INDEX.
pub proof fn lemma_index_lookup(s: Seq<u8>, at: int, index: u16)
    requires
        is_index(s, at),
    ensures
        index < index_count(s, at) ==> index_lookup(s, at, index) == Ok::<Found, FontError>(
            Found {
                length: Some(
                    (index_offset(s, at, index + 1) - index_offset(s, at, index as int)) as u32,
                ),
                at: index_base(s, at) + index_offset(s, at, index as int),
            },
        ),
        index < index_count(s, at) ==> 0 <= index_offset(s, at, index + 1) - index_offset(
            s,
            at,
            index as int,
        ) <= u32::MAX,
        index >= index_count(s, at) ==> index_lookup(s, at, index) == Ok::<Found, FontError>(
            Found {
                length: None,
                at: index_base(s, at) + index_offset(s, at, index_count(s, at)),
            },
        ),
{
    let count = index_count(s, at);
    let slot = if index < count {
        index as int
    } else {
        count
    };
    lemma_offsets_ordered(s, at, slot, count);
    lemma_offsets_ordered(s, at, 0, slot);
}

} // verus!
