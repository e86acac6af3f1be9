use truetype::number::q16;
use truetype::offsets::Record;
use truetype::tag::Tag;
use truetype::tape::{Cursor, Tape, Value};
use truetype::unicode;

#[test]
fn number_from() {
    let cases: Vec<(i16, f32)> = vec![
        (0x7fff as i16, 1.999939),
        (0x7000 as i16, 1.75),
        (0x0001 as i16, 0.000061),
        (0x0000 as i16, 0.0),
        (-0x0001 as i16, -0.000061),
        (-0x8000 as i16, -2.0),
    ];
    for (input, output) in cases.into_iter() {
        let value = q16(input);
        let input: f32 = value.0 as f32 / (1u32 << q16::FRACTION) as f32;
        assert!((input - output).abs() < 1e-4, "{} != {}", input, output);
    }
}

fn checksum_matches(size: u32, checksum: u32, data: &[u8]) -> bool {
    let mut reader = Cursor::new(data.to_vec());
    let table = Record {
        tag: Tag(*b"true"),
        size,
        offset: 0,
        checksum,
    };
    table.checksum == table.checksum(&mut reader).unwrap()
}

#[test]
fn offset_table_record_checksum() {
    assert!(!checksum_matches(3 * 4, 1 + 2 + 4, &[0, 0, 0, 1, 0, 0, 0, 2, 0, 0, 0, 3]));
    assert!(checksum_matches(3 * 4, 1 + 2 + 3, &[0, 0, 0, 1, 0, 0, 0, 2, 0, 0, 0, 3]));
}

#[test]
fn offsets_record_checksum() {
    assert!(!checksum_matches(3 * 4, 1 + 2 + 4, &[0, 0, 0, 1, 0, 0, 0, 2, 0, 0, 0, 3]));
    assert!(checksum_matches(3 * 4, 1 + 2 + 3, &[0, 0, 0, 1, 0, 0, 0, 2, 0, 0, 0, 3]));
}

#[test]
fn mod_from() {
    assert_eq!(Tag::from(b"true"), Tag::from(0x74727565u32));
}

#[test]
fn decode_utf16() {
    assert_eq!(unicode::decode_utf16(&[0xD8, 0x52, 0xDF, 0x62]).unwrap(), "\u{24B62}");
}

#[test]
fn encode_utf16() {
    let mut data = vec![];
    unicode::encode_utf16("\u{24B62}", &mut data);
    assert_eq!(data, &[0xD8, 0x52, 0xDF, 0x62]);
}

#[test]
fn from_str() {
    assert_eq!(Tag::from_str("true").unwrap(), Tag(*b"true"));
}

#[test]
fn as_str() {
    assert_eq!(Tag(*b"CFF ").as_str(), Some("CFF "));
    assert_eq!(Tag(*b"OS/2").as_str(), Some("OS/2"));
    assert_eq!(Tag(*b"true").as_str(), Some("true"));
    assert_eq!(Tag([0, 1, 0, 0]).as_str(), None);
}

#[test]
fn tag_from() {
    assert_eq!(Tag(*b"true"), Tag::from(0x74727565u32));
}

#[test]
fn into() {
    assert_eq!(u32::from(Tag(*b"true")), 0x74727565);
}

#[test]
fn tag_read() {
    let mut tape = Cursor::new(b"true".to_vec());
    assert_eq!(Tag::read(&mut tape).unwrap(), Tag(*b"true"));
}

#[test]
fn tag_round_trip() {
    for value in [0u32, 1, 0x74727565, 0x00010000, u32::MAX] {
        assert_eq!(u32::from(Tag::from(value)), value);
    }
    let tag = Tag(*b"OS/2");
    assert_eq!(Tag::from(u32::from(tag)), tag);
}

#[test]
fn tag_from_str_wrong_length() {
    assert_eq!(Tag::from_str("abc"), None);
    assert_eq!(Tag::from_str("abcde"), None);
}

#[test]
fn tape_reads_big_endian() {
    let mut tape = Cursor::new(vec![0x12, 0x34, 0xFF, 0xFE, 0x80, 0, 0, 0, 1]);
    assert_eq!(u16::read(&mut tape).unwrap(), 0x1234);
    assert_eq!(i16::read(&mut tape).unwrap(), -2);
    assert_eq!(i32::read(&mut tape).unwrap(), i32::MIN);
    assert_eq!(tape.position(), 8);
    assert!(u16::read(&mut tape).is_err());
    assert_eq!(tape.position(), 8);
    assert_eq!(u8::read(&mut tape).unwrap(), 1);
}

#[test]
fn tape_take_bytes_advances() {
    let mut tape = Cursor::new(vec![1, 2, 3, 4, 5]);
    assert_eq!(tape.take_bytes(3).unwrap(), vec![1, 2, 3]);
    assert_eq!(tape.position(), 3);
    assert!(tape.take_bytes(3).is_err());
    assert!(tape.jump(6).is_err());
    assert!(tape.jump(5).is_ok());
    assert_eq!(tape.position(), 5);
}

#[test]
fn accepted_formats() {
    assert!(truetype::accept(&Tag([0, 1, 0, 0])));
    assert!(truetype::accept(&Tag(*b"OTTO")));
    assert!(truetype::accept(&Tag(*b"true")));
    assert!(truetype::accept(&Tag(*b"typ1")));
    assert!(!truetype::accept(&Tag(*b"ttcf")));
}

#[test]
fn writers_round_trip() {
    let mut data = vec![];
    truetype::tape::give_u16(&mut data, 0xABCD);
    truetype::tape::give_i16(&mut data, -2);
    truetype::tape::give_u32(&mut data, 0x01020304);
    truetype::tape::give_i32(&mut data, -5);
    truetype::tape::give_i64(&mut data, i64::MIN + 7);
    truetype::tape::give_u8(&mut data, 9);
    assert_eq!(&data[0..4], &[0xAB, 0xCD, 0xFF, 0xFE]);
    let mut tape = Cursor::new(data);
    assert_eq!(u16::read(&mut tape).unwrap(), 0xABCD);
    assert_eq!(i16::read(&mut tape).unwrap(), -2);
    assert_eq!(u32::read(&mut tape).unwrap(), 0x01020304);
    assert_eq!(i32::read(&mut tape).unwrap(), -5);
    assert_eq!(i64::read(&mut tape).unwrap(), i64::MIN + 7);
    assert_eq!(u8::read(&mut tape).unwrap(), 9);
}

#[test]
fn debug() {
    assert_eq!(Tag(*b"true").describe(), "Tag(true)");
    assert_eq!(Tag([0, 1, 0, 0]).describe(), "Tag(0x00010000)");
}

#[test]
fn record_check() {
    assert!(!checksum_matches(3 * 4, 1 + 2 + 4, &[0, 0, 0, 1, 0, 0, 0, 2, 0, 0, 0, 3]));
    assert!(checksum_matches(3 * 4, 1 + 2 + 3, &[0, 0, 0, 1, 0, 0, 0, 2, 0, 0, 0, 3]));
}

#[test]
fn stay_restores_position() {
    let mut tape = Cursor::new(vec![0, 1, 0, 2, 0, 3]);
    tape.jump(2).unwrap();
    let value = truetype::tape::stay(&mut tape, |tape| {
        tape.jump(4)?;
        u16::read(tape)
    });
    assert_eq!(value, Ok(3));
    assert_eq!(tape.position(), 2);
    let failed = truetype::tape::stay(&mut tape, |tape| tape.take_bytes(9));
    assert!(failed.is_err());
    assert_eq!(tape.position(), 2);
}

#[test]
fn generic_take_and_peek() {
    let mut tape = Cursor::new(b"trueOTTO".to_vec());
    assert_eq!(truetype::tape::peek::<Tag, _>(&mut tape).unwrap(), Tag(*b"true"));
    assert_eq!(tape.position(), 0);
    assert_eq!(truetype::tape::take::<Tag, _>(&mut tape).unwrap(), Tag(*b"true"));
    assert_eq!(truetype::tape::take::<u32, _>(&mut tape).unwrap(), 0x4F54544F);
    assert!(truetype::tape::peek::<u8, _>(&mut tape).is_err());
}

#[test]
fn record_check_compares_checksums() {
    let data = vec![0, 0, 0, 1, 0, 0, 0, 2, 0, 0, 0, 3];
    let good = Record { tag: Tag(*b"glyf"), checksum: 6, offset: 0, size: 12 };
    let bad = Record { checksum: 7, ..good };
    let mut tape = Cursor::new(data);
    assert_eq!(good.check(&mut tape), Ok(true));
    assert_eq!(bad.check(&mut tape), Ok(false));
    let far = Record { offset: 4, ..good };
    assert!(far.check(&mut tape).is_err());
    assert_eq!(tape.position(), 0);
}
