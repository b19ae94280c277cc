use font_tables::error::FontError;
use font_tables::font::{FontTable, Point, PointKind, Position};
use font_tables::outline::GlyphBounds;
use font_tables::tables::cff::CffTable;

fn on(x: i16, y: i16, index_in_contour: u16) -> Point {
    Point { position: Position { x, y }, index_in_contour, kind: PointKind::OnCurve }
}

/// An INDEX of `records` with one-byte offsets.
fn index(records: &[&[u8]]) -> Vec<u8> {
    let mut bytes = vec![(records.len() >> 8) as u8, records.len() as u8];
    if records.is_empty() {
        return bytes;
    }
    bytes.push(1);
    let mut offset = 1;
    bytes.push(offset);
    for record in records {
        offset += record.len() as u8;
        bytes.push(offset);
    }
    for record in records {
        bytes.extend_from_slice(record);
    }
    bytes
}

/// A table with the given CharStrings, laid out in the usual order.
fn table(char_strings: &[&[u8]]) -> Vec<u8> {
    let mut bytes = vec![1, 0, 4, 1];
    bytes.extend(index(&[b"Font"]));
    // The Top DICT is four bytes; two empty INDEXes follow it.
    let at = bytes.len() + 5 + 4 + 2 + 2;
    bytes.extend(index(&[&[28, (at >> 8) as u8, at as u8, 17]]));
    bytes.extend(index(&[]));
    bytes.extend(index(&[]));
    assert_eq!(bytes.len(), at);
    bytes.extend(index(char_strings));
    bytes
}

const SQUARE: [u8; 11] = [139, 139, 21, 140, 139, 139, 140, 138, 139, 5, 14];
const DOT: [u8; 4] = [149, 159, 21, 14];

fn points_of(bytes: &[u8], glyph_id: u16) -> (Result<(), FontError>, Vec<Point>) {
    let cff = CffTable::new(FontTable { bytes }).unwrap();
    let mut points = Vec::new();
    let result = cff.for_each_point(glyph_id, &mut points);
    (result, points)
}

#[test]
fn table_of_two_glyphs() {
    let bytes = table(&[&SQUARE, &DOT]);
    assert_eq!(
        points_of(&bytes, 0),
        (Ok(()), vec![on(0, 0, 0), on(1, 0, 1), on(1, 1, 2), on(0, 1, 3), on(0, 0, 4)])
    );
    assert_eq!(points_of(&bytes, 1), (Ok(()), vec![on(10, 20, 0), on(10, 20, 1)]));
}

#[test]
fn bounds_of_the_unit_square() {
    let bytes = table(&[&SQUARE, &DOT]);
    let cff = CffTable::new(FontTable { bytes: &bytes }).unwrap();
    assert_eq!(cff.glyph_bounds(0), Ok(GlyphBounds { left: 0, bottom: 0, right: 1, top: 1 }));
}

#[test]
fn bounds_of_a_single_point() {
    let bytes = table(&[&SQUARE, &DOT]);
    let cff = CffTable::new(FontTable { bytes: &bytes }).unwrap();
    assert_eq!(cff.glyph_bounds(1), Ok(GlyphBounds { left: 10, bottom: 20, right: 10, top: 20 }));
}

#[test]
fn bounds_of_an_empty_glyph_are_the_empty_box() {
    let bytes = table(&[&[14]]);
    let cff = CffTable::new(FontTable { bytes: &bytes }).unwrap();
    assert_eq!(
        cff.glyph_bounds(0),
        Ok(GlyphBounds { left: i32::MAX, bottom: i32::MAX, right: i32::MIN, top: i32::MIN })
    );
    assert_eq!(cff.glyph_bounds(0), Ok(GlyphBounds::default()));
}

#[test]
fn bounds_include_control_points() {
    let bytes = table(&[&[139, 139, 139, 239, 239, 239, 8]]);
    let cff = CffTable::new(FontTable { bytes: &bytes }).unwrap();
    assert_eq!(cff.glyph_bounds(0), Ok(GlyphBounds { left: 0, bottom: 0, right: 100, top: 200 }));
    let bytes = table(&[&[129, 22, 139, 119, 159, 149, 139, 149, 8]]);
    let cff = CffTable::new(FontTable { bytes: &bytes }).unwrap();
    assert_eq!(
        cff.glyph_bounds(0),
        Ok(GlyphBounds { left: -10, bottom: -20, right: 10, top: 0 })
    );
}

#[test]
fn glyph_equal_to_the_count_is_end_of_data() {
    let bytes = table(&[&SQUARE, &DOT]);
    assert_eq!(points_of(&bytes, 2), (Err(FontError::UnexpectedEof), vec![]));
    let cff = CffTable::new(FontTable { bytes: &bytes }).unwrap();
    assert_eq!(cff.glyph_bounds(2), Err(FontError::UnexpectedEof));
    assert_eq!(cff.glyph_bounds(u16::MAX), Err(FontError::UnexpectedEof));
}

#[test]
fn glyph_equal_to_the_count_with_truncated_data() {
    let whole = table(&[&SQUARE, &DOT]);
    let start = table(&[]).len() - 2;
    for len in start..whole.len() {
        assert_eq!(points_of(&whole[..len], 2), (Err(FontError::UnexpectedEof), vec![]));
    }
}

#[test]
fn glyph_in_table_without_glyphs() {
    let bytes = table(&[]);
    assert_eq!(points_of(&bytes, 0), (Err(FontError::UnexpectedEof), vec![]));
}

#[test]
fn glyph_equal_to_the_count_with_bad_offset_size() {
    let mut bytes = table(&[&SQUARE, &DOT]);
    let start = table(&[]).len() - 2;
    bytes[start + 2] = 5;
    assert_eq!(points_of(&bytes, 2), (Err(FontError::CffBadOffset), vec![]));
    bytes.truncate(start + 3 + 9);
    assert_eq!(points_of(&bytes, 2), (Err(FontError::UnexpectedEof), vec![]));
}

#[test]
fn char_string_cut_short_is_end_of_data() {
    let whole = table(&[&SQUARE, &DOT]);
    let cut = &whole[..whole.len() - 1];
    assert_eq!(
        points_of(cut, 0),
        (Ok(()), vec![on(0, 0, 0), on(1, 0, 1), on(1, 1, 2), on(0, 1, 3), on(0, 0, 4)])
    );
    assert_eq!(points_of(cut, 1), (Err(FontError::UnexpectedEof), vec![]));
}

#[test]
fn a_bad_glyph_leaves_the_table_usable() {
    let bytes = table(&[&[139, 12], &DOT]);
    let cff = CffTable::new(FontTable { bytes: &bytes }).unwrap();
    assert_eq!(cff.glyph_bounds(0), Err(FontError::CffUnimplementedOperator));
    assert_eq!(cff.glyph_bounds(1), Ok(GlyphBounds { left: 10, bottom: 20, right: 10, top: 20 }));
    let copy = cff;
    assert_eq!(copy.glyph_bounds(1), cff.glyph_bounds(1));
}

#[test]
fn error_keeps_the_points_before_it() {
    let bytes = table(&[&[149, 159, 21, 140, 5]]);
    assert_eq!(
        points_of(&bytes, 0),
        (Err(FontError::CffBadOperandCount), vec![on(10, 20, 0)])
    );
    let cff = CffTable::new(FontTable { bytes: &bytes }).unwrap();
    assert_eq!(cff.glyph_bounds(0), Err(FontError::CffBadOperandCount));
}

fn new_fails(bytes: &[u8], error: FontError) {
    assert_eq!(CffTable::new(FontTable { bytes }).err(), Some(error));
}

#[test]
fn version_must_be_one_point_zero() {
    let mut bytes = table(&[&DOT]);
    bytes[0] = 2;
    new_fails(&bytes, FontError::UnsupportedCffVersion);
    let mut bytes = table(&[&DOT]);
    bytes[1] = 1;
    new_fails(&bytes, FontError::UnsupportedCffVersion);
    new_fails(&[2, 0], FontError::UnsupportedCffVersion);
    new_fails(&[2], FontError::UnexpectedEof);
}

#[test]
fn truncated_tables() {
    let whole = table(&[&DOT]);
    // All that is read lies before the Global Subr INDEX.
    let needed = table(&[]).len() - 4;
    for len in 0..needed {
        new_fails(&whole[..len], FontError::UnexpectedEof);
    }
    assert!(CffTable::new(FontTable { bytes: &whole[..needed] }).is_ok());
}

#[test]
fn header_size_is_honoured() {
    let plain = table(&[&DOT]);
    let mut bytes = vec![1, 0, 6, 1, 0xaa, 0xbb];
    bytes.extend_from_slice(&plain[4..]);
    // The CharStrings INDEX has moved by two bytes.
    bytes[22] = plain[20] + 2;
    assert_eq!(points_of(&bytes, 0), (Ok(()), vec![on(10, 20, 0), on(10, 20, 1)]));
}

#[test]
fn header_size_below_three_is_end_of_data() {
    let mut bytes = table(&[&DOT]);
    bytes[2] = 2;
    new_fails(&bytes, FontError::UnexpectedEof);
    bytes[2] = 0;
    new_fails(&bytes, FontError::UnexpectedEof);
}

#[test]
fn header_size_three_starts_the_name_index_at_once() {
    let plain = table(&[&DOT]);
    let mut bytes = vec![1, 0, 3];
    bytes.extend_from_slice(&plain[4..]);
    bytes[19] = plain[20] - 1;
    assert_eq!(points_of(&bytes, 0), (Ok(()), vec![on(10, 20, 0), on(10, 20, 1)]));
}

#[test]
fn top_dict_must_be_there() {
    let mut bytes = vec![1, 0, 4, 1];
    bytes.extend(index(&[b"Font"]));
    bytes.extend(index(&[]));
    bytes.extend(index(&[]));
    new_fails(&bytes, FontError::CffTopDictNotFound);
}

#[test]
fn top_dict_must_give_the_char_strings() {
    let mut bytes = vec![1, 0, 4, 1];
    bytes.extend(index(&[b"Font"]));
    bytes.extend(index(&[&[17]]));
    bytes.extend(index(&[]));
    new_fails(&bytes, FontError::CffIntegerNotFound);
    let mut bytes = vec![1, 0, 4, 1];
    bytes.extend(index(&[b"Font"]));
    bytes.extend(index(&[&[140, 16]]));
    new_fails(&bytes, FontError::UnexpectedEof);
}

#[test]
fn bad_offset_size_in_name_index() {
    let mut bytes = table(&[&DOT]);
    bytes[6] = 0;
    new_fails(&bytes, FontError::CffBadOffset);
}

#[test]
fn string_index_must_be_whole() {
    let mut bytes = vec![1, 0, 4, 1];
    bytes.extend(index(&[b"Font"]));
    bytes.extend(index(&[&[140, 17]]));
    bytes.extend([0, 1, 1, 1, 9]);
    new_fails(&bytes, FontError::UnexpectedEof);
}

#[test]
fn char_strings_offset_beyond_the_table() {
    let mut bytes = vec![1, 0, 4, 1];
    bytes.extend(index(&[b"Font"]));
    bytes.extend(index(&[&[28, 0x7f, 0xff, 17]]));
    bytes.extend(index(&[]));
    let cff = CffTable::new(FontTable { bytes: &bytes }).unwrap();
    assert_eq!(cff.glyph_bounds(0), Err(FontError::UnexpectedEof));
}

#[test]
fn negative_char_strings_offset_is_beyond_the_table() {
    let mut bytes = vec![1, 0, 4, 1];
    bytes.extend(index(&[b"Font"]));
    bytes.extend(index(&[&[138, 17]]));
    bytes.extend(index(&[]));
    let cff = CffTable::new(FontTable { bytes: &bytes }).unwrap();
    assert_eq!(cff.glyph_bounds(0), Err(FontError::UnexpectedEof));
    let mut points = Vec::new();
    assert_eq!(cff.for_each_point(0, &mut points), Err(FontError::UnexpectedEof));
    assert_eq!(points, []);
}
