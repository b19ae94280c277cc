use font_tables::error::FontError;
use font_tables::util::Cursor;

#[test]
fn cursor_starts_at_the_beginning() {
    let bytes = [1u8, 2, 3];
    let cursor = Cursor::new(&bytes);
    assert_eq!(cursor.position(), 0);
    assert_eq!(cursor.remaining(), 3);
    assert_eq!(cursor.as_slice(), &[1u8, 2, 3]);
}

#[test]
fn cursor_reads_bytes_in_order() {
    let bytes = [7u8, 9];
    let mut cursor = Cursor::new(&bytes);
    assert_eq!(cursor.read_u8(), Ok(7));
    assert_eq!(cursor.read_u8(), Ok(9));
    assert_eq!(cursor.read_u8(), Err(FontError::UnexpectedEof));
    assert_eq!(cursor.position(), 2);
}

#[test]
fn cursor_reads_u16_big_endian() {
    let bytes = [0x12u8, 0x34, 0xff];
    let mut cursor = Cursor::new(&bytes);
    assert_eq!(cursor.read_u16(), Ok(0x1234));
    assert_eq!(cursor.position(), 2);
    assert_eq!(cursor.read_u16(), Err(FontError::UnexpectedEof));
    assert_eq!(cursor.position(), 2);
}

#[test]
fn cursor_reads_i16_big_endian() {
    let bytes = [0xffu8, 0x7c, 0x00, 0xc1, 0x80, 0x00];
    let mut cursor = Cursor::new(&bytes);
    assert_eq!(cursor.read_i16(), Ok(-132));
    assert_eq!(cursor.read_i16(), Ok(193));
    assert_eq!(cursor.read_i16(), Ok(-32768));
    assert_eq!(cursor.read_i16(), Err(FontError::UnexpectedEof));
}

#[test]
fn cursor_reads_u32_big_endian() {
    let bytes = [0x01u8, 0x02, 0x03, 0x04, 0xff, 0xff, 0xff, 0xff, 0x00];
    let mut cursor = Cursor::new(&bytes);
    assert_eq!(cursor.read_u32(), Ok(0x0102_0304));
    assert_eq!(cursor.read_u32(), Ok(0xffff_ffff));
    assert_eq!(cursor.read_u32(), Err(FontError::UnexpectedEof));
    assert_eq!(cursor.position(), 8);
}

#[test]
fn cursor_reads_i32_big_endian() {
    let bytes = [0xffu8, 0xff, 0x7a, 0x33, 0x00, 0x01, 0x00, 0x00, 0x80, 0x00, 0x00, 0x00];
    let mut cursor = Cursor::new(&bytes);
    assert_eq!(cursor.read_i32(), Ok(-34253));
    assert_eq!(cursor.read_i32(), Ok(65536));
    assert_eq!(cursor.read_i32(), Ok(i32::MIN));
    assert_eq!(cursor.read_i32(), Err(FontError::UnexpectedEof));
}

#[test]
fn cursor_jumps_to_the_end_but_not_beyond() {
    let bytes = [0u8; 5];
    let mut cursor = Cursor::new(&bytes);
    assert_eq!(cursor.jump(2), Ok(()));
    assert_eq!(cursor.position(), 2);
    assert_eq!(cursor.jump(4), Err(FontError::UnexpectedEof));
    assert_eq!(cursor.position(), 2);
    assert_eq!(cursor.jump(3), Ok(()));
    assert_eq!(cursor.remaining(), 0);
    assert_eq!(cursor.jump(0), Ok(()));
    assert_eq!(cursor.jump(1), Err(FontError::UnexpectedEof));
}

#[test]
fn cursor_on_no_bytes() {
    let bytes: [u8; 0] = [];
    let mut cursor = Cursor::new(&bytes);
    assert_eq!(cursor.remaining(), 0);
    assert_eq!(cursor.read_u8(), Err(FontError::UnexpectedEof));
    assert_eq!(cursor.read_u16(), Err(FontError::UnexpectedEof));
    assert_eq!(cursor.jump(0), Ok(()));
}
