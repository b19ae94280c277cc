//! The DICT: operands, each followed sooner or later by the operator
//! they belong to.
//!
//! An operator is one byte, or two where the first is the escape, 12;
//! the two-byte operator with second byte `b1` has the number
//! `b1 * 256 + 12`. An operand is an integer or a real number. A real
//! number starts with 30 and ends with the first byte whose low nibble
//! is 15; its value is not read. A DICT has no end of its own: it goes
//! on as far as the bytes do.

use vstd::prelude::*;

use crate::error::FontError;
use crate::model::operand::{is_short_lead, long_value, short_tail, short_value};

verus! {

/// The lead of the operand that DICTs alone have: a 32-bit integer.
pub const LONG_LEAD: u8 = 29;

/// The lead of a real number.
pub const REAL_LEAD: u8 = 30;

/// The first byte of a two-byte operator.
pub const ESCAPE: u8 = 12;

/// The place after the real number whose bytes after the lead start at
/// `s[at]`, or `None` where the bytes run out before the number ends.
pub open spec fn real_end(s: Seq<u8>, at: int) -> Option<int>
    decreases s.len() - at,
{
    if at < 0 || at >= s.len() {
        None
    } else if s[at] % 16 == 15 {
        Some(at + 1)
    } else {
        real_end(s, at + 1)
    }
}

/// An integer found in a DICT, and the place after its operator.
pub struct Entry {
    pub value: i32,
    pub at: int,
}

/// What a scan for the operator `operator` comes to, from `s[at]` on,
/// when the integer operand read last, if any, is `last`.
///
/// The scan stops at the first operator with that number. Its operand
/// is the integer just before it; where a real number, another operator
/// or nothing comes before it, it has none. Of several integers before
/// an operator only the last counts.
pub open spec fn scan(s: Seq<u8>, at: int, operator: u16, last: Option<i32>) -> Result<
    Entry,
    FontError,
>
    decreases s.len() - at,
{
    if at < 0 || at >= s.len() {
        Err(FontError::UnexpectedEof)
    } else {
        let b0 = s[at];
        if is_short_lead(b0) {
            if at + 1 + short_tail(b0) > s.len() {
                Err(FontError::UnexpectedEof)
            } else {
                scan(
                    s,
                    at + 1 + short_tail(b0),
                    operator,
                    Some(short_value(b0, s, at + 1) as i32),
                )
            }
        } else if b0 == LONG_LEAD {
            if at + 5 > s.len() {
                Err(FontError::UnexpectedEof)
            } else {
                scan(s, at + 5, operator, Some(long_value(s, at + 1) as i32))
            }
        } else if b0 == REAL_LEAD {
            match real_end(s, at + 1) {
                None => Err(FontError::UnexpectedEof),
                Some(end) => {
                    proof {
                        lemma_real_end_bounds(s, at + 1);
                    }
                    scan(s, end, operator, None)
                },
            }
        } else if b0 == ESCAPE {
            if at + 2 > s.len() {
                Err(FontError::UnexpectedEof)
            } else if operator == s[at + 1] * 256 + 12 {
                found(last, at + 2)
            } else {
                scan(s, at + 2, operator, None)
            }
        } else if operator == b0 {
            found(last, at + 1)
        } else {
            scan(s, at + 1, operator, None)
        }
    }
}

/// What the scan comes to at the operator looked for, the place after
/// which is `at`.
pub open spec fn found(last: Option<i32>, at: int) -> Result<Entry, FontError> {
    match last {
        Some(value) => Ok(Entry { value, at }),
        None => Err(FontError::CffIntegerNotFound),
    }
}

/// A real number ends after its start and within the data.
pub proof fn lemma_real_end_bounds(s: Seq<u8>, at: int)
    ensures
        real_end(s, at) matches Some(end) ==> at < end <= s.len(),
    decreases s.len() - at,
{
    if 0 <= at < s.len() && s[at] % 16 != 15 {
        lemma_real_end_bounds(s, at + 1);
    }
}

/// What looking up the integer operand of `operator` comes to in the
/// DICT that starts at `s[at]`.
pub open spec fn dict_integer(s: Seq<u8>, at: int, operator: u16) -> Result<Entry, FontError> {
    scan(s, at, operator, None)
}

} // verus!
