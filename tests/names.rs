use truetype::language::LanguageID;
use truetype::macintosh::{self, Context};
use truetype::names::{Names, Record};
use truetype::tape::{Cursor, Error};

#[test]
fn names_round_trip() {
    let records = vec![
        ((1u16, 0u16, 0u16, 9u16), "Frank Grie\u{df}hammer".to_string()),
        ((3, 1, 0x409, 9), "Frank Grie\u{df}hammer".to_string()),
        ((0, 4, 0, 1), "\u{24B62}".to_string()),
    ];
    let mut context = Context::new();
    let table = Names::from_iter(&records, &vec![], &mut context).unwrap();
    assert!(matches!(table, Names::Format0(_)));
    let entries = table.iter();
    assert_eq!(entries.len(), 3);
    for (entry, (key, value)) in entries.iter().zip(records.iter()) {
        assert_eq!(entry.0, *key);
        assert_eq!(entry.1.as_deref(), Some(value.as_str()));
    }
}

#[test]
fn names_with_language_tags_use_format1() {
    let records = vec![((3u16, 1u16, 0x8000u16, 1u16), "Open Sans".to_string())];
    let tags = vec!["en-US".to_string()];
    let mut context = Context::new();
    let table = Names::from_iter(&records, &tags, &mut context).unwrap();
    assert!(matches!(table, Names::Format1(_)));
    assert_eq!(table.language_tags(), vec![Some("en-US".to_string())]);
    assert_eq!(table.iter()[0].1.as_deref(), Some("Open Sans"));
}

#[test]
fn names_read_format0() {
    let mut data = vec![0, 0, 0, 1, 0, 18];
    data.extend_from_slice(&[0, 1, 0, 0, 0, 0, 0, 1, 0, 4, 0, 0]);
    data.extend_from_slice(b"Sans");
    let mut tape = Cursor::new(data);
    let table = Names::read(&mut tape).unwrap();
    let entries = table.iter();
    assert_eq!(entries.len(), 1);
    assert_eq!(entries[0].0, (1, 0, 0, 1));
    assert_eq!(entries[0].1.as_deref(), Some("Sans"));
}

#[test]
fn names_read_unknown_format() {
    let mut tape = Cursor::new(vec![0, 2, 0, 0, 0, 6]);
    assert_eq!(Names::read(&mut tape).err(), Some(Error::Unknown));
}

#[test]
fn macintosh_roman_decodes_upper_half() {
    let text = macintosh::decode(&[0x46, 0x72, 0x61, 0x6E, 0x6B, 0xA7], 0, 0).unwrap();
    assert_eq!(text, "Frank\u{df}");
    assert!(macintosh::decode(&[0x41], 1, 0).is_none());
}

#[test]
fn macintosh_unknown_character() {
    let mut context = Context::new();
    let mut data = vec![];
    assert_eq!(
        macintosh::encode("\u{4E2D}", 0, 0, &mut data, &mut context),
        Err(Error::UnknownCharacter)
    );
    let mut data = vec![];
    assert_eq!(macintosh::encode("A", 1, 0, &mut data, &mut context), Err(Error::Unknown));
}

#[test]
fn macintosh_encode_round_trip() {
    let mut context = Context::new();
    let mut data = vec![];
    macintosh::encode("Gr\u{fc}\u{df}e", 0, 0, &mut data, &mut context).unwrap();
    assert_eq!(data, vec![0x47, 0x72, 0x9F, 0xA7, 0x65]);
    assert_eq!(macintosh::decode(&data, 0, 0).unwrap(), "Gr\u{fc}\u{df}e");
}

#[test]
fn windows_and_unicode_encodings() {
    assert_eq!(truetype::windows::decode(&[0, 0x41], 1).unwrap(), "A");
    assert!(truetype::windows::decode(&[0, 0x41], 2).is_none());
    assert!(truetype::unicode::decode(&[0, 0x41], 1).is_none());
    assert_eq!(truetype::unicode::decode(&[0, 0x41], 3).unwrap(), "A");
    assert!(truetype::unicode::decode_utf16(&[0xD8, 0x52]).is_none());
    assert!(truetype::unicode::decode_utf16(&[0xD8]).is_none());
    let mut data = vec![];
    assert_eq!(truetype::windows::encode("A", 3, &mut data), Err(Error::Unknown));
    assert!(data.is_empty());
}

#[test]
fn language_tags_of_records() {
    let tags = vec![Some("de-CH".to_string())];
    let record = |platform_id, language_id| Record {
        platform_id,
        encoding_id: 0,
        language_id,
        name_id: 1,
        size: 0,
        offset: 0,
    };
    assert_eq!(record(0, 0).language_tag(&tags), None);
    assert_eq!(record(1, 0).language_tag(&tags), Some("en".to_string()));
    assert_eq!(record(3, 0x0409).language_tag(&tags), Some("en".to_string()));
    assert_eq!(record(3, 0x0809).language_tag(&tags), Some("en-GB".to_string()));
    assert_eq!(record(3, 0x8000).language_tag(&tags), Some("de-CH".to_string()));
    assert_eq!(record(3, 0x8001).language_tag(&tags), None);
}

#[test]
fn names_write_then_read() {
    let records = vec![
        ((1u16, 0u16, 0u16, 1u16), "Source Serif Pro".to_string()),
        ((3, 1, 0x8000, 1), "Source Serif Pro".to_string()),
    ];
    let tags = vec!["en-US".to_string()];
    let mut context = Context::new();
    let table = Names::from_iter(&records, &tags, &mut context).unwrap();
    let mut data = vec![];
    table.write(&mut data);
    let read = Names::read(&mut Cursor::new(data)).unwrap();
    assert_eq!(read.iter(), table.iter());
    // Only the strings of the records are read back, so the tag that follows
    // them lies past the data.
    assert_eq!(read.language_tags(), vec![None]);
}

#[test]
fn language_ids_by_platform() {
    use_language_ids();
}

fn use_language_ids() {
    let read = |platform_id: u16, bytes: Vec<u8>| {
        truetype::language::LanguageID::read(&mut Cursor::new(bytes), platform_id)
    };
    assert_eq!(read(0, vec![0x12, 0x34]), Ok(LanguageID::Unicode));
    assert_eq!(read(1, vec![0, 15]), Ok(LanguageID::Macintosh(15)));
    assert_eq!(read(3, vec![0x04, 0x09]), Ok(LanguageID::Windows(0x0409)));
    assert_eq!(read(3, vec![0x80, 0x02]), Ok(LanguageID::Other(2)));
    assert_eq!(read(3, vec![0x00, 0x01]), Err(Error::Malformed));
    assert_eq!(read(1, vec![0]), Err(Error::Truncated));
}

#[test]
fn from_iter_layout() {
    let records = vec![
        ((3u16, 1u16, 0x409u16, 1u16), "Ab".to_string()),
        ((1, 0, 0, 2), "Cde".to_string()),
    ];
    let tags = vec!["en".to_string()];
    let mut context = Context::new();
    match Names::from_iter(&records, &tags, &mut context).unwrap() {
        Names::Format1(table) => {
            assert_eq!(table.count, 2);
            assert_eq!(table.offset, 2 * (3 + 6 * 2 + 1 + 2));
            assert_eq!(table.language_tag_count, 1);
            assert_eq!((table.records[0].offset, table.records[0].size), (0, 4));
            assert_eq!((table.records[1].offset, table.records[1].size), (4, 3));
            assert_eq!((table.language_tags[0].offset, table.language_tags[0].size), (7, 4));
            assert_eq!(table.data, vec![0, b'A', 0, b'b', b'C', b'd', b'e', 0, b'e', 0, b'n']);
        }
        _ => panic!("expected format 1"),
    }
}

#[test]
fn from_iter_rejects_large_header() {
    let records = vec![((3u16, 1u16, 0x409u16, 1u16), String::new()); 5000];
    let tags = vec![String::new(); 2000];
    let mut context = Context::new();
    assert_eq!(Names::from_iter(&records, &tags, &mut context).err(), Some(Error::Malformed));
    let records = vec![((3u16, 1u16, 0x409u16, 1u16), String::new()); 5000];
    assert!(Names::from_iter(&records, &vec![], &mut context).is_ok());
}

#[test]
fn from_iter_rejects_unknown_encoding() {
    let records = vec![((3u16, 7u16, 0x409u16, 1u16), "A".to_string())];
    let mut context = Context::new();
    assert_eq!(Names::from_iter(&records, &vec![], &mut context).err(), Some(Error::Unknown));
}
