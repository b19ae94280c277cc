use font_tables::error::FontError;
use font_tables::font::FontTable;
use font_tables::tables::os_2::Os2Table;

fn table(version: u16, len: usize, at: usize) -> Vec<u8> {
    let mut bytes: Vec<u8> = (0..len).map(|i| i as u8).collect();
    bytes[0] = (version >> 8) as u8;
    bytes[1] = version as u8;
    bytes[at..at + 6].copy_from_slice(&[0x03, 0x20, 0xff, 0x38, 0x00, 0x5a]);
    bytes
}

const METRICS: Os2Table = Os2Table { typo_ascender: 800, typo_descender: -200, typo_line_gap: 90 };

#[test]
fn version_zero_metrics_are_at_byte_56() {
    let bytes = table(0, 78, 56);
    assert_eq!(Os2Table::new(FontTable { bytes: &bytes }), Ok(METRICS));
}

#[test]
fn later_versions_have_longer_unicode_ranges() {
    for version in [1u16, 2, 3, 4, 5, 6, 0xffff] {
        let bytes = table(version, 96, 68);
        assert_eq!(Os2Table::new(FontTable { bytes: &bytes }), Ok(METRICS));
    }
}

#[test]
fn metrics_may_end_the_table() {
    let bytes = table(0, 62, 56);
    assert_eq!(Os2Table::new(FontTable { bytes: &bytes }), Ok(METRICS));
    let bytes = table(4, 74, 68);
    assert_eq!(Os2Table::new(FontTable { bytes: &bytes }), Ok(METRICS));
}

#[test]
fn short_table_is_end_of_data() {
    let whole = table(0, 62, 56);
    for len in 0..62 {
        assert_eq!(
            Os2Table::new(FontTable { bytes: &whole[..len] }),
            Err(FontError::UnexpectedEof)
        );
    }
    let whole = table(1, 74, 68);
    for len in 0..74 {
        assert_eq!(
            Os2Table::new(FontTable { bytes: &whole[..len] }),
            Err(FontError::UnexpectedEof)
        );
    }
}

#[test]
fn extreme_metrics() {
    let mut bytes = table(0, 62, 56);
    bytes[56..62].copy_from_slice(&[0x80, 0x00, 0x7f, 0xff, 0xff, 0xff]);
    assert_eq!(
        Os2Table::new(FontTable { bytes: &bytes }),
        Ok(Os2Table { typo_ascender: i16::MIN, typo_descender: i16::MAX, typo_line_gap: -1 })
    );
}
