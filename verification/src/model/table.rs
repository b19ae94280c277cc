//! The CFF table as a whole: where its CharStrings are, and which bytes
//! are the CharString of a glyph.
//!
//! The table starts with a header: major version, minor version, and
//! the header's own size. After the header come the Name INDEX, the Top
//! DICT INDEX, and the String INDEX. The Top DICT is record 0 of its
//! INDEX; its operator 17 gives the place of the CharStrings INDEX,
//! counted from the start of the table. Record `g` of that INDEX is the
//! CharString of glyph `g`.

use vstd::prelude::*;

use crate::error::FontError;
use crate::model::charstring::{outline, Outcome};
use crate::model::dict::dict_integer;
use crate::model::index::{index_lookup, span};
use crate::util::u16_at;

verus! {

/// The number of the Top DICT operator whose operand is the place of the
/// CharStrings INDEX.
pub const CHAR_STRINGS: u16 = 17;

/// The 32 bits of `v`, read as an unsigned number.
pub open spec fn unsigned32(v: i32) -> u32 {
    (v as int % 0x1_0000_0000) as u32
}

/// What reading the table `s` up to its String INDEX comes to: the place
/// of the CharStrings INDEX, or the first error met on the way.
///
/// The version must be 1.0. The header must be at least the three bytes
/// that were read to learn its size, and lie within the table. The Name
/// INDEX is skipped; the Top DICT must have a record 0, and the scan for
/// operator 17 starts there and stops after that operator; the INDEX
/// that starts at that point is skipped in turn.
pub open spec fn char_strings_offset(s: Seq<u8>) -> Result<u32, FontError> {
    if s.len() < 2 {
        Err(FontError::UnexpectedEof)
    } else if s[0] != 1 || s[1] != 0 {
        Err(FontError::UnsupportedCffVersion)
    } else if s.len() < 3 || s[2] < 3 || s[2] > s.len() {
        Err(FontError::UnexpectedEof)
    } else {
        match index_lookup(s, s[2] as int, u16::MAX) {
            Err(e) => Err(e),
            Ok(names) => match index_lookup(s, names.at, 0) {
                Err(e) => Err(e),
                Ok(top) => if top.length is None {
                    Err(FontError::CffTopDictNotFound)
                } else {
                    match dict_integer(s, top.at, CHAR_STRINGS) {
                        Err(e) => Err(e),
                        Ok(entry) => match index_lookup(s, entry.at, u16::MAX) {
                            Err(e) => Err(e),
                            Ok(strings) => Ok(unsigned32(entry.value)),
                        },
                    }
                },
            },
        }
    }
}

/// The CharString of glyph `glyph_id` in the table `s`, whose CharStrings
/// INDEX is at `char_strings`. A glyph that the INDEX has no record for,
/// and a record that would reach beyond the table, are reported as the
/// end of the data.
pub open spec fn char_string(s: Seq<u8>, char_strings: u32, glyph_id: u16) -> Result<
    Seq<u8>,
    FontError,
> {
    if char_strings > s.len() {
        Err(FontError::UnexpectedEof)
    } else {
        match index_lookup(s, char_strings as int, glyph_id) {
            Err(e) => Err(e),
            Ok(found) => match found.length {
                None => Err(FontError::UnexpectedEof),
                Some(length) => if found.at + length > s.len() {
                    Err(FontError::UnexpectedEof)
                } else {
                    Ok(s.subrange(found.at, found.at + length))
                },
            },
        }
    }
}

/// The outline of glyph `glyph_id` in the table `s`, whose CharStrings
/// INDEX is at `char_strings`.
pub open spec fn glyph_outline(s: Seq<u8>, char_strings: u32, glyph_id: u16) -> Outcome {
    match char_string(s, char_strings, glyph_id) {
        Err(e) => Outcome::failed(e),
        Ok(cs) => outline(cs),
    }
}

/// Whether the CharStrings INDEX at `char_strings` has at least one
/// record, an offset size outside 1 to 4, and room for as many offsets
/// as it has records. A look beyond its last record then gets as far as
/// the last offset and reports its size; with any other INDEX it ends
/// as the data does.
pub open spec fn bad_offset_size_in_reach(s: Seq<u8>, char_strings: u32) -> bool {
    &&& char_strings + 3 <= s.len()
    &&& u16_at(s, char_strings as int) >= 1
    &&& !(1 <= s[char_strings + 2] <= 4)
    &&& char_strings + 3 + span(s[char_strings + 2] as int, u16_at(s, char_strings as int))
        <= s.len()
}

/// A glyph whose number is the count of the CharStrings INDEX, or
/// greater, has no outline: the query reports the end of the data and
/// emits no point, whatever bytes follow the count.
pub proof fn lemma_glyph_beyond_count(s: Seq<u8>, char_strings: u32, glyph_id: u16)
    requires
        char_strings + 2 <= s.len() ==> glyph_id >= u16_at(s, char_strings as int),
        !bad_offset_size_in_reach(s, char_strings),
    ensures
        glyph_outline(s, char_strings, glyph_id) == Outcome::failed(FontError::UnexpectedEof),
{
}

/// Under the same conditions, but with an offset size outside 1 to 4 in
/// reach, the query reports that size and emits no point.
pub proof fn lemma_glyph_beyond_count_bad_offset(s: Seq<u8>, char_strings: u32, glyph_id: u16)
    requires
        char_strings + 2 <= s.len() ==> glyph_id >= u16_at(s, char_strings as int),
        bad_offset_size_in_reach(s, char_strings),
    ensures
        glyph_outline(s, char_strings, glyph_id) == Outcome::failed(FontError::CffBadOffset),
{
}

} // verus!
