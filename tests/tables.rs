use truetype::character_mapping::{
    CharacterMapping, Encoding, Encoding12, Encoding4, SequentialGroup, VariationSelector,
};
use truetype::font_header::FontHeader;
use truetype::glyph_data::{Arguments, Description, GlyphData, Options};
use truetype::glyph_mapping::GlyphMapping;
use truetype::horizontal_metrics::{HorizontalMetrics, Record};
use truetype::maximum_profile::{MaximumProfile, MaximumProfile0};
use truetype::number::{q16, q32};
use truetype::postscript::PostScript;
use truetype::windows_metrics::WindowsMetrics;
use truetype::tape::{Cursor, Error, Tape, Value};

#[test]
fn char_mapping_variation_selector_record() {
    let mut tape = Cursor::new(vec![
        0x02u8, 0x01, 0xFF, 0x00, 0x02, 0x01, 0xFF, 0xAA, 0x02, 0x01, 0xFF,
    ]);
    let record = VariationSelector::read(&mut tape).unwrap();
    assert!(record.character == 0x000201FF);
    assert!(record.default_uvs_offset == 0x000201FF);
    assert!(record.non_default_uvs_offset == 0xAA0201FF);
}

#[test]
fn character_mapping_variation_selector_record() {
    let mut tape = Cursor::new(vec![
        0x02u8, 0x01, 0xFF, 0x00, 0x02, 0x01, 0xFF, 0xAA, 0x02, 0x01, 0xFF,
    ]);
    let record = VariationSelector::read(&mut tape).unwrap();
    assert!(record.character == 0x000201FF);
    assert!(record.default_uvs_offset == 0x000201FF);
    assert!(record.non_default_uvs_offset == 0xAA0201FF);
}

#[test]
fn format12_group_mapping() {
    let encoding = Encoding12 {
        format: 12,
        reserved: 0,
        size: 28,
        language: 0,
        group_count: 1,
        groups: vec![SequentialGroup {
            start_code: 0x10000,
            end_code: 0x10002,
            start_glyph_id: 500,
        }],
    };
    let mapping = encoding.mapping();
    assert_eq!(mapping.len(), 3);
    assert_eq!(mapping[&0x10000], 500);
    assert_eq!(mapping[&0x10001], 501);
    assert_eq!(mapping[&0x10002], 502);
}

fn push16(data: &mut Vec<u8>, value: u16) {
    data.extend_from_slice(&value.to_be_bytes());
}

fn format4_bytes() -> Vec<u8> {
    // Three segments: 0x41..=0x43 by delta, 0x61..=0x62 through the array,
    // and the final 0xFFFF.
    let mut data = vec![];
    for value in [4u16, 0, 0, 6, 4, 1, 2] {
        push16(&mut data, value);
    }
    for value in [0x43u16, 0x62, 0xFFFF] {
        push16(&mut data, value);
    }
    push16(&mut data, 0);
    for value in [0x41u16, 0x61, 0xFFFF] {
        push16(&mut data, value);
    }
    for value in [-0x40i16, 0, 1] {
        data.extend_from_slice(&value.to_be_bytes());
    }
    for value in [0u16, 4, 0] {
        push16(&mut data, value);
    }
    for value in [7u16, 9] {
        push16(&mut data, value);
    }
    data
}

#[test]
fn format4_decodes_and_maps() {
    let mut tape = Cursor::new(format4_bytes());
    let encoding = Encoding4::read(&mut tape).unwrap();
    assert_eq!(encoding.segment_count(), 3);
    assert_eq!(encoding.glyph_ids, vec![7, 9]);
    assert_eq!(encoding.characters(), vec![(0x41, 0x43), (0x61, 0x62)]);
    let mapping = encoding.mapping();
    assert_eq!(mapping.len(), 5);
    assert_eq!(mapping[&0x41], 1);
    assert_eq!(mapping[&0x43], 3);
    assert_eq!(mapping[&0x61], 7);
    assert_eq!(mapping[&0x62], 9);
}

#[test]
fn format4_rejects_unterminated_segments() {
    let mut data = format4_bytes();
    // The final end code is no longer 0xFFFF.
    data[18] = 0xFF;
    data[19] = 0xFE;
    let mut tape = Cursor::new(data);
    assert_eq!(Encoding4::read(&mut tape).err(), Some(Error::Malformed));
}

#[test]
fn character_mapping_reads_encodings() {
    let mut data = vec![];
    for value in [0u16, 2, 3, 1] {
        push16(&mut data, value);
    }
    data.extend_from_slice(&20u32.to_be_bytes());
    for value in [0u16, 3] {
        push16(&mut data, value);
    }
    data.extend_from_slice(&24u32.to_be_bytes());
    // Format 6 at 20 would overlap; an unknown format 2 at 20 and format 6 at 24.
    push16(&mut data, 2);
    push16(&mut data, 0);
    for value in [6u16, 12, 0, 0x20, 1, 42] {
        push16(&mut data, value);
    }
    let mut tape = Cursor::new(data);
    let mapping = CharacterMapping::read(&mut tape).unwrap();
    assert_eq!(mapping.header.table_count, 2);
    assert_eq!(mapping.records.len(), 2);
    assert!(matches!(mapping.encodings[0], Encoding::Unknown(2)));
    match &mapping.encodings[1] {
        Encoding::Format6(encoding) => {
            let map = encoding.mapping();
            assert_eq!(map.len(), 1);
            assert_eq!(map[&0x20], 42);
            assert_eq!(encoding.characters(), vec![(0x20, 0x20)]);
        }
        _ => panic!("expected format 6"),
    }
}

fn glyph_bytes() -> Vec<u8> {
    // A simple glyph with one contour of three points, then a composite glyph.
    let mut data = vec![];
    for value in [1i16, 0, 0, 100, 50] {
        data.extend_from_slice(&value.to_be_bytes());
    }
    push16(&mut data, 2);
    push16(&mut data, 0);
    // Flags: on curve with short positive x and y, repeated once; then a
    // point with long x and same y.
    data.extend_from_slice(&[0x01 | 0x02 | 0x04 | 0x10 | 0x20 | 0x08, 1, 0x01 | 0x20]);
    data.extend_from_slice(&[10, 20]);
    data.extend_from_slice(&(-30i16).to_be_bytes());
    data.extend_from_slice(&[5, 6]);
    while data.len() % 2 != 0 {
        data.push(0);
    }
    let start = data.len();
    for value in [-1i16, 0, 0, 100, 50] {
        data.extend_from_slice(&value.to_be_bytes());
    }
    // Arguments are words and offsets; a vector scale.
    push16(&mut data, 0x0001 | 0x0002 | 0x0040);
    push16(&mut data, 70);
    data.extend_from_slice(&298i16.to_be_bytes());
    data.extend_from_slice(&0i16.to_be_bytes());
    data.extend_from_slice(&(-0x4000i16).to_be_bytes());
    data.extend_from_slice(&0x4000i16.to_be_bytes());
    assert_eq!(start, 24);
    data
}

#[test]
fn glyph_data_decodes_simple_and_composite() {
    let data = glyph_bytes();
    let end = data.len() as u16;
    let mapping = GlyphMapping::HalfOffsets(vec![0, 12, 12, end / 2]);
    let mut tape = Cursor::new(data);
    let glyphs = GlyphData::read(&mut tape, &mapping).unwrap();
    assert_eq!(glyphs.0.len(), 3);
    let first = glyphs.0[0].as_ref().unwrap();
    assert_eq!((first.min_x, first.min_y, first.max_x, first.max_y), (0, 0, 100, 50));
    match &first.description {
        Description::Simple(description) => {
            assert_eq!(description.end_points, vec![2]);
            assert_eq!(description.flags.len(), 3);
            assert_eq!(description.x, vec![10, 20, -30]);
            assert_eq!(description.y, vec![5, 6, 0]);
        }
        _ => panic!("expected a simple glyph"),
    }
    assert!(glyphs.0[1].is_none());
    let third = glyphs.0[2].as_ref().unwrap();
    match &third.description {
        Description::Composite(description) => {
            assert_eq!(description.components.len(), 1);
            let component = &description.components[0];
            assert_eq!(component.glyph_index, 70);
            assert_eq!(component.arguments, Arguments::Offsets(298, 0));
            assert_eq!(component.options, Options::Vector(q16(-0x4000), q16(0x4000)));
            assert_eq!(description.instruction_size, 0);
        }
        _ => panic!("expected a composite glyph"),
    }
}

#[test]
fn glyph_data_rejects_decreasing_offsets() {
    let mapping = GlyphMapping::Offsets(vec![0, 30, 20]);
    let mut tape = Cursor::new(glyph_bytes());
    assert_eq!(GlyphData::read(&mut tape, &mapping).err(), Some(Error::Malformed));
}

#[test]
fn glyph_data_rejects_empty_mapping() {
    let mapping = GlyphMapping::Offsets(vec![]);
    let mut tape = Cursor::new(glyph_bytes());
    assert!(GlyphData::read(&mut tape, &mapping).is_err());
}

#[test]
fn glyph_data_rejects_overrun() {
    // The first glyph needs 30 bytes but is given 20.
    let mapping = GlyphMapping::Offsets(vec![0, 20]);
    let mut tape = Cursor::new(glyph_bytes());
    assert_eq!(GlyphData::read(&mut tape, &mapping).err(), Some(Error::Malformed));
}

#[test]
fn maximum_profile_glyph_count() {
    let mut tape = Cursor::new(vec![0, 0, 0x50, 0, 2, 35]);
    let profile = MaximumProfile::read(&mut tape).unwrap();
    assert_eq!(profile.glyph_count(), 547);
    assert_eq!(
        profile,
        MaximumProfile::Version0(MaximumProfile0 { version: q32(0x5000), glyph_count: 547 })
    );
    let mut tape = Cursor::new(vec![0, 2, 0, 0, 2, 35]);
    assert_eq!(MaximumProfile::read(&mut tape).err(), Some(Error::Unknown));
}

#[test]
fn horizontal_metrics_lookup() {
    let metrics = HorizontalMetrics {
        records: vec![
            Record { advance_width: 500, left_side_bearing: 10 },
            Record { advance_width: 600, left_side_bearing: 20 },
        ],
        left_side_bearings: vec![30, 40],
    };
    assert_eq!(metrics.get(0), (500, 10));
    assert_eq!(metrics.get(1), (600, 20));
    assert_eq!(metrics.get(2), (600, 30));
    assert_eq!(metrics.get(3), (600, 40));
    assert_eq!(metrics.get(9), (600, 40));
}

fn font_header_bytes() -> Vec<u8> {
    let mut data = vec![0, 1, 0, 0, 0, 1, 0x04, 0x5A];
    data.extend_from_slice(&0u32.to_be_bytes());
    data.extend_from_slice(&0x5F0F3CF5u32.to_be_bytes());
    push16(&mut data, 0x000B);
    push16(&mut data, 1000);
    data.extend_from_slice(&[0; 16]);
    for value in [-10i16, -20, 900, 800] {
        data.extend_from_slice(&value.to_be_bytes());
    }
    push16(&mut data, 0);
    push16(&mut data, 9);
    push16(&mut data, 2);
    push16(&mut data, 0);
    push16(&mut data, 0);
    data
}

#[test]
fn font_header_reads_and_validates() {
    let mut tape = Cursor::new(font_header_bytes());
    let header = FontHeader::read(&mut tape).unwrap();
    assert_eq!(header.units_per_em, 1000);
    assert_eq!(header.revision, q32(0x0001045A));
    assert_eq!((header.min_x, header.min_y, header.max_x, header.max_y), (-10, -20, 900, 800));
    assert_eq!(header.glyph_mapping_format, 0);
    let mut data = font_header_bytes();
    data[12] = 0;
    assert_eq!(FontHeader::read(&mut Cursor::new(data)).err(), Some(Error::Unknown));
    let mut data = font_header_bytes();
    data[16] = 0x80;
    assert_eq!(FontHeader::read(&mut Cursor::new(data)).err(), Some(Error::Malformed));
}

#[test]
fn font_checksum_adjustment() {
    let data = vec![0, 0, 0, 1, 0, 0, 0, 2];
    let adjustment = FontHeader::checksum(&mut Cursor::new(data)).unwrap();
    assert_eq!(adjustment, 0xB1B0AFBAu32.wrapping_sub(3));
    assert_eq!(adjustment.wrapping_add(3), 0xB1B0AFBA);
    assert_eq!(FontHeader::checksum(&mut Cursor::new(vec![1, 2, 3])).err(), Some(Error::Malformed));
}

#[test]
fn glyph_mapping_by_format() {
    let header = FontHeader::read(&mut Cursor::new(font_header_bytes())).unwrap();
    let profile = MaximumProfile::Version0(MaximumProfile0 { version: q32(0x5000), glyph_count: 2 });
    let mut tape = Cursor::new(vec![0, 0, 0, 27, 0, 46]);
    match GlyphMapping::read(&mut tape, &header, &profile).unwrap() {
        GlyphMapping::HalfOffsets(offsets) => assert_eq!(offsets, vec![0, 27, 46]),
        _ => panic!("expected half offsets"),
    }
    let mut long = header;
    long.glyph_mapping_format = 1;
    let mut tape = Cursor::new(vec![0, 0, 0, 0, 0, 0, 0, 54, 0, 0, 0, 92]);
    match GlyphMapping::read(&mut tape, &long, &profile).unwrap() {
        GlyphMapping::Offsets(offsets) => assert_eq!(offsets, vec![0, 54, 92]),
        _ => panic!("expected offsets"),
    }
    let mut unknown = header;
    unknown.glyph_mapping_format = 2;
    let mut tape = Cursor::new(vec![0; 12]);
    assert_eq!(GlyphMapping::read(&mut tape, &unknown, &profile).err(), Some(Error::Unknown));
}

#[test]
fn peek_keeps_position() {
    let mut tape = Cursor::new(vec![0, 4, 0, 0]);
    assert_eq!(truetype::tape::peek_u16(&mut tape).unwrap(), 4);
    assert_eq!(tape.position(), 0);
}

#[test]
fn postscript_version2_names() {
    let mut data = vec![0, 2, 0, 0];
    data.extend_from_slice(&[0; 28]);
    push16(&mut data, 3);
    for value in [0u16, 258, 259] {
        push16(&mut data, value);
    }
    data.push(4);
    data.extend_from_slice(b"Alef");
    data.push(2);
    data.extend_from_slice(&[0xFF, 0xFE]);
    let mut tape = Cursor::new(data);
    match PostScript::read(&mut tape).unwrap() {
        PostScript::Version2(table) => {
            assert_eq!(table.glyph_count, 3);
            assert_eq!(table.glyph_name_indices, vec![0, 258, 259]);
            assert_eq!(table.glyph_names, vec!["Alef".to_string(), "<malformed>".to_string()]);
        }
        _ => panic!("expected version 2"),
    }
    let mut tape = Cursor::new(vec![0, 4, 0, 0, 0, 0, 0, 0]);
    assert!(PostScript::read(&mut tape).is_err());
}

fn windows_metrics_bytes(version: u16) -> Vec<u8> {
    let mut data = vec![];
    push16(&mut data, version);
    push16(&mut data, 500);
    push16(&mut data, 400);
    push16(&mut data, 5);
    push16(&mut data, 0x0008);
    data.extend_from_slice(&[0; 22]);
    data.extend_from_slice(&[2, 0, 5, 3, 0, 0, 0, 0, 0, 0]);
    data.extend_from_slice(&[0; 16]);
    data.extend_from_slice(b"ADBE");
    push16(&mut data, 0x0040);
    data.extend_from_slice(&[0; 14]);
    data.extend_from_slice(&[0; 8]);
    data.extend_from_slice(&[0; 10]);
    data.extend_from_slice(&[0; 4]);
    data
}

#[test]
fn windows_metrics_versions() {
    use_windows_metrics();
}

fn use_windows_metrics() {
    let mut tape = Cursor::new(windows_metrics_bytes(3));
    match WindowsMetrics::read(&mut tape).unwrap() {
        WindowsMetrics::Version3(metrics) => {
            let base = metrics.base.base;
            assert_eq!(base.weight_class, 400);
            assert_eq!(base.vendor_id, truetype::tag::Tag(*b"ADBE"));
            assert!(base.embedding_flags.allows_editable());
            assert!(base.selection_flags.is_regular());
            assert_eq!(base.panose[2], 5);
        }
        _ => panic!("expected version 3"),
    }
    assert_eq!(tape.position(), 96);
    let mut tape = Cursor::new(windows_metrics_bytes(0));
    assert!(matches!(WindowsMetrics::read(&mut tape).unwrap(), WindowsMetrics::Version0(_)));
    let mut tape = Cursor::new(windows_metrics_bytes(6));
    assert_eq!(WindowsMetrics::read(&mut tape).err(), Some(Error::Unknown));
    let mut data = windows_metrics_bytes(5);
    data[8] = 0x80;
    assert_eq!(WindowsMetrics::read(&mut Cursor::new(data)).err(), Some(Error::Malformed));
}

#[test]
fn format0_maps_every_byte() {
    let mut data = vec![0, 0, 1, 6, 0, 0];
    data.extend((0..=255u8).map(|b| b.wrapping_add(1)));
    let mut tape = Cursor::new(data);
    let encoding = truetype::character_mapping::Encoding0::read(&mut tape).unwrap();
    let mapping = encoding.mapping();
    assert_eq!(mapping.len(), 256);
    assert_eq!(mapping[&0], 1);
    assert_eq!(mapping[&255], 0);
    assert_eq!(encoding.characters(), vec![(0, 255)]);
}

#[test]
fn format14_has_no_mapping() {
    let mut data = vec![0, 14, 0, 0, 0, 21, 0, 0, 0, 1];
    data.extend_from_slice(&[0x02, 0x01, 0xFF, 0, 0, 0, 0, 0, 0, 0, 0]);
    let mut tape = Cursor::new(data);
    let encoding = truetype::character_mapping::Encoding14::read(&mut tape).unwrap();
    assert_eq!(encoding.selectors.len(), 1);
    assert_eq!(encoding.selectors[0].character, 0x0201FF);
    assert!(encoding.mapping().is_empty());
    assert!(encoding.characters().is_empty());
}

#[test]
fn offset_table_reads_records() {
    use_offset_table();
}

fn use_offset_table() {
    let mut data = vec![0, 1, 0, 0, 0, 1, 0, 16, 0, 0, 0, 0];
    data.extend_from_slice(b"head");
    data.extend_from_slice(&[0, 0, 0, 6, 0, 0, 0, 28, 0, 0, 0, 12]);
    let mut tape = Cursor::new(data.clone());
    let table = truetype::offsets::OffsetTable::read(&mut tape).unwrap();
    assert_eq!(table.header.table_count, 1);
    assert_eq!(table.records[0].tag, truetype::tag::Tag(*b"head"));
    assert_eq!(table.records[0].size, 12);
    data[0] = 9;
    let mut tape = Cursor::new(data);
    assert_eq!(truetype::offsets::OffsetTable::read(&mut tape).err(), Some(Error::Unknown));
}

#[test]
fn head_checksum_leaves_out_adjustment() {
    let record = truetype::offsets::Record {
        tag: truetype::tag::Tag(*b"head"),
        checksum: 0,
        offset: 0,
        size: 13,
    };
    let data = vec![0, 0, 0, 1, 0, 0, 0, 2, 0, 0, 0, 100, 7, 9, 9, 9, 5];
    let mut tape = Cursor::new(data);
    tape.jump(4).unwrap();
    assert_eq!(record.checksum(&mut tape).unwrap(), 1 + 2 + 0x07000000);
    assert_eq!(tape.position(), 4);
}

#[test]
fn offsets_write_round_trip() {
    use_offsets_write();
}

fn use_offsets_write() {
    let table = truetype::offsets::OffsetTable {
        header: truetype::offsets::Header {
            version: 0x00010000,
            table_count: 2,
            search_range: 32,
            entry_selector: 1,
            range_shift: 0,
        },
        records: vec![
            truetype::offsets::Record {
                tag: truetype::tag::Tag(*b"cmap"),
                checksum: 1,
                offset: 44,
                size: 10,
            },
            truetype::offsets::Record {
                tag: truetype::tag::Tag(*b"head"),
                checksum: 2,
                offset: 56,
                size: 54,
            },
        ],
    };
    let mut data = vec![];
    table.write(&mut data);
    assert_eq!(data.len(), 12 + 2 * 16);
    let read = truetype::offsets::OffsetTable::read(&mut Cursor::new(data)).unwrap();
    assert_eq!(read.header, table.header);
    assert_eq!(read.records, table.records);
}

#[test]
fn horizontal_tables_read() {
    use_horizontal_tables();
}

fn use_horizontal_tables() {
    let mut data = vec![0, 1, 0, 0];
    for value in [918i16, -335, 0] {
        data.extend_from_slice(&value.to_be_bytes());
    }
    data.extend_from_slice(&[0; 24]);
    push16(&mut data, 2);
    let header =
        truetype::horizontal_header::HorizontalHeader::read(&mut Cursor::new(data)).unwrap();
    assert_eq!(header.ascender, 918);
    assert_eq!(header.descender, -335);
    assert_eq!(header.horizontal_metric_count, 2);
    let profile = MaximumProfile::Version0(MaximumProfile0 { version: q32(0x5000), glyph_count: 3 });
    let mut data = vec![];
    for (advance, bearing) in [(500u16, 10i16), (600, 20)] {
        push16(&mut data, advance);
        data.extend_from_slice(&bearing.to_be_bytes());
    }
    data.extend_from_slice(&(-7i16).to_be_bytes());
    let metrics = HorizontalMetrics::read(&mut Cursor::new(data.clone()), &header, &profile).unwrap();
    assert_eq!(metrics.records.len(), 2);
    assert_eq!(metrics.left_side_bearings, vec![-7]);
    assert_eq!(metrics.get(2), (600, -7));
    let mut wrong = header;
    wrong.horizontal_metric_count = 4;
    assert_eq!(
        HorizontalMetrics::read(&mut Cursor::new(data), &wrong, &profile).err(),
        Some(Error::Malformed)
    );
}

#[test]
fn font_header_write_round_trip() {
    let bytes = font_header_bytes();
    let header = FontHeader::read(&mut Cursor::new(bytes.clone())).unwrap();
    let mut data = vec![];
    header.write(&mut data);
    assert_eq!(data, bytes);
    assert_eq!(FontHeader::read(&mut Cursor::new(data)).unwrap(), header);
}

#[test]
fn flat_tables_write_round_trip() {
    let profile = MaximumProfile::Version0(MaximumProfile0 { version: q32(0x5000), glyph_count: 547 });
    let mut data = vec![];
    profile.write(&mut data);
    assert_eq!(data, vec![0, 0, 0x50, 0, 2, 35]);
    assert_eq!(MaximumProfile::read(&mut Cursor::new(data)).unwrap(), profile);
    let mut bytes = vec![0, 1, 0, 0];
    for value in 0..16i16 {
        bytes.extend_from_slice(&(value * 7 - 30).to_be_bytes());
    }
    let header = truetype::horizontal_header::HorizontalHeader::read(&mut Cursor::new(bytes.clone()))
        .unwrap();
    let mut data = vec![];
    header.write(&mut data);
    assert_eq!(data, bytes);
}
