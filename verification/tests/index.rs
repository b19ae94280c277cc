use font_tables::error::FontError;
use font_tables::tables::cff::{find_in_index, skip_index};
use font_tables::util::Cursor;

// Two records, of 2 and 3 bytes, with one-byte offsets.
const TWO_RECORDS: [u8; 12] = [0, 2, 1, 1, 3, 6, 10, 11, 20, 21, 22, 99];

#[test]
fn find_first_record() {
    let mut cursor = Cursor::new(&TWO_RECORDS);
    assert_eq!(find_in_index(&mut cursor, 0), Ok(Some(2)));
    assert_eq!(cursor.position(), 6);
    assert_eq!(&cursor.as_slice()[..2], &[10u8, 11]);
}

#[test]
fn find_second_record() {
    let mut cursor = Cursor::new(&TWO_RECORDS);
    assert_eq!(find_in_index(&mut cursor, 1), Ok(Some(3)));
    assert_eq!(cursor.position(), 8);
    assert_eq!(&cursor.as_slice()[..3], &[20u8, 21, 22]);
}

#[test]
fn find_beyond_last_record_is_none_at_end_of_index() {
    let mut cursor = Cursor::new(&TWO_RECORDS);
    assert_eq!(find_in_index(&mut cursor, 2), Ok(None));
    assert_eq!(cursor.position(), 11);
    let mut cursor = Cursor::new(&TWO_RECORDS);
    assert_eq!(find_in_index(&mut cursor, 700), Ok(None));
    assert_eq!(cursor.position(), 11);
}

#[test]
fn find_in_single_record_index() {
    let bytes = [0u8, 1, 1, 1, 5, 1, 2, 3, 4];
    let mut cursor = Cursor::new(&bytes);
    assert_eq!(find_in_index(&mut cursor, 0), Ok(Some(4)));
    assert_eq!(cursor.position(), 5);
    let mut cursor = Cursor::new(&bytes);
    assert_eq!(find_in_index(&mut cursor, 1), Ok(None));
    assert_eq!(cursor.position(), 9);
}

#[test]
fn find_starts_where_the_cursor_is() {
    let bytes = [9u8, 9, 9, 0, 1, 1, 1, 3, 7, 8];
    let mut cursor = Cursor::new(&bytes);
    assert_eq!(cursor.jump(3), Ok(()));
    assert_eq!(find_in_index(&mut cursor, 0), Ok(Some(2)));
    assert_eq!(cursor.position(), 8);
}

#[test]
fn find_with_two_byte_offsets() {
    let mut bytes = vec![0u8, 2, 2, 0, 1, 1, 1, 1, 4];
    bytes.extend(std::iter::repeat(7u8).take(0x100));
    bytes.extend([1u8, 2, 3]);
    let mut cursor = Cursor::new(&bytes);
    assert_eq!(find_in_index(&mut cursor, 0), Ok(Some(0x100)));
    assert_eq!(cursor.position(), 9);
    let mut cursor = Cursor::new(&bytes);
    assert_eq!(find_in_index(&mut cursor, 1), Ok(Some(3)));
    assert_eq!(cursor.position(), 9 + 0x100);
    assert_eq!(cursor.as_slice(), &[1u8, 2, 3]);
}

#[test]
fn find_with_three_byte_offsets() {
    let bytes = [0u8, 1, 3, 0, 0, 1, 0, 0, 3, 5, 6];
    let mut cursor = Cursor::new(&bytes);
    assert_eq!(find_in_index(&mut cursor, 0), Ok(Some(2)));
    assert_eq!(cursor.position(), 9);
}

#[test]
fn find_with_four_byte_offsets() {
    let bytes = [0u8, 1, 4, 0, 0, 0, 1, 0, 0, 0, 4, 5, 6, 7];
    let mut cursor = Cursor::new(&bytes);
    assert_eq!(find_in_index(&mut cursor, 0), Ok(Some(3)));
    assert_eq!(cursor.position(), 11);
    let mut cursor = Cursor::new(&bytes);
    assert_eq!(skip_index(&mut cursor), Ok(()));
    assert_eq!(cursor.position(), 14);
}

#[test]
fn find_in_empty_index_reads_the_count_only() {
    let bytes = [0u8, 0];
    let mut cursor = Cursor::new(&bytes);
    assert_eq!(find_in_index(&mut cursor, 0), Ok(None));
    assert_eq!(cursor.position(), 2);
    // What follows the count is not looked at, not even a bad offset size.
    let bytes = [0u8, 0, 9, 9];
    let mut cursor = Cursor::new(&bytes);
    assert_eq!(find_in_index(&mut cursor, 3), Ok(None));
    assert_eq!(cursor.position(), 2);
}

#[test]
fn skip_leaves_the_cursor_after_the_index() {
    let mut cursor = Cursor::new(&TWO_RECORDS);
    assert_eq!(skip_index(&mut cursor), Ok(()));
    assert_eq!(cursor.position(), 11);
    assert_eq!(cursor.as_slice(), &[99u8]);
}

#[test]
fn skip_empty_index() {
    let bytes = [0u8, 0, 5];
    let mut cursor = Cursor::new(&bytes);
    assert_eq!(skip_index(&mut cursor), Ok(()));
    assert_eq!(cursor.position(), 2);
}

#[test]
fn find_reports_bad_offset_size() {
    let bytes = [0u8, 1, 5, 1, 1, 1, 1, 1, 1, 1, 1, 1, 1, 1];
    let mut cursor = Cursor::new(&bytes);
    assert_eq!(find_in_index(&mut cursor, 0), Err(FontError::CffBadOffset));
    assert_eq!(cursor.position(), 0);
    let bytes = [0u8, 1, 0, 1, 1];
    let mut cursor = Cursor::new(&bytes);
    assert_eq!(find_in_index(&mut cursor, 0), Err(FontError::CffBadOffset));
}

#[test]
fn find_reports_truncated_index() {
    let cases: [&[u8]; 6] = [
        &[],
        &[0],
        &[0, 1],
        &[0, 1, 1],
        &[0, 1, 1, 1],
        // The record would start beyond the data.
        &[0, 1, 1, 9, 12],
    ];
    for bytes in cases {
        let mut cursor = Cursor::new(bytes);
        assert_eq!(find_in_index(&mut cursor, 0), Err(FontError::UnexpectedEof));
        assert_eq!(cursor.position(), 0);
    }
}

#[test]
fn find_allows_a_record_that_starts_at_the_end() {
    // The last record is empty and the data ends with the INDEX.
    let bytes = [0u8, 2, 1, 1, 2, 2, 7];
    let mut cursor = Cursor::new(&bytes);
    assert_eq!(find_in_index(&mut cursor, 1), Ok(Some(0)));
    assert_eq!(cursor.remaining(), 0);
}

#[test]
fn find_reports_offsets_that_decrease() {
    let bytes = [0u8, 1, 1, 3, 1, 7, 7, 7];
    let mut cursor = Cursor::new(&bytes);
    assert_eq!(find_in_index(&mut cursor, 0), Err(FontError::UnexpectedEof));
    assert_eq!(cursor.position(), 0);
}

#[test]
fn skip_reports_truncated_data() {
    let bytes = [0u8, 2, 1, 1, 3, 6, 10, 11, 20, 21];
    let mut cursor = Cursor::new(&bytes);
    assert_eq!(skip_index(&mut cursor), Err(FontError::UnexpectedEof));
    assert_eq!(cursor.position(), 0);
}
