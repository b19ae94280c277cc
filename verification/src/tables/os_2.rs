//! The `OS/2` table: the typographic line metrics.

use vstd::prelude::*;

use crate::error::FontError;
use crate::font::FontTable;
use crate::util::{i16_at, u16_at, Cursor};

verus! {

/// The tag of the table: the four characters `OS/2`.
pub const TAG: u32 = 0x4f53_2f32;

/// The line metrics that a font's designer recommends.
#[derive(Clone, Copy, Debug, PartialEq, Eq, Structural)]
pub struct Os2Table {
    pub typo_ascender: i16,
    pub typo_descender: i16,
    pub typo_line_gap: i16,
}

/// The place of the typographic ascender in a table of version `version`.
/// The descender and the line gap follow it.
///
/// Before it stand the version itself, fifteen 16-bit fields, the ten
/// bytes of the PANOSE classification, the Unicode ranges, which take two
/// 32-bit fields in version 0 and five in every later one, and three more
/// 16-bit fields.
pub open spec fn typo_metrics_at(version: int) -> int {
    let unicode_ranges: int = if version == 0 {
        2
    } else {
        5
    };
    2 + 2 * 15 + 10 + 4 * unicode_ranges + 2 * 3
}

/// The line metrics of the table `s`. A table too short to hold them is
/// reported as the end of the data.
pub open spec fn line_metrics(s: Seq<u8>) -> Result<Os2Table, FontError> {
    if s.len() < 2 || s.len() < typo_metrics_at(u16_at(s, 0)) + 6 {
        Err(FontError::UnexpectedEof)
    } else {
        let at = typo_metrics_at(u16_at(s, 0));
        Ok(
            Os2Table {
                typo_ascender: i16_at(s, at) as i16,
                typo_descender: i16_at(s, at + 2) as i16,
                typo_line_gap: i16_at(s, at + 4) as i16,
            },
        )
    }
}

impl Os2Table {
    /// Reads the line metrics of the table.
    pub fn new(table: FontTable) -> (r: Result<Os2Table, FontError>)
        ensures
            r == line_metrics(table.bytes@),
    {
        let mut reader = Cursor::new(table.bytes);

        // We should be compatible with all versions. If this is greater than version 5, follow
        // Postel's law and hope for the best.
        let version = reader.read_u16()?;

        // Skip to the line gap.
        reader.jump(2 * 15)?;
        reader.jump(10)?;
        if version == 0 {
            reader.jump(4 * 2)?;
        } else {
            reader.jump(4 * 5)?;
        }
        reader.jump(2 * 3)?;

        // Read the line spacing information.
        let typo_ascender = reader.read_i16()?;
        let typo_descender = reader.read_i16()?;
        let typo_line_gap = reader.read_i16()?;

        Ok(Os2Table { typo_ascender, typo_descender, typo_line_gap })
    }
}

} // verus!
