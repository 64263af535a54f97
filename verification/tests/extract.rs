use perf_statemap::byte_order::{BigEndian, ByteOrder, Endianness, LittleEndian};
use perf_statemap::error::{DecodeError, SchemaError};
use perf_statemap::tracepoints::format::{TracepointArrayType, TracepointField};
use perf_statemap::tracepoints::parser::{
    before_nul, format_path, FieldShape, FormatParser, ParseOp,
};

fn field(name: &str, offset: u32, size: u32, array_type: TracepointArrayType) -> TracepointField {
    TracepointField {
        field_type: String::from("t"),
        field_name: String::from(name),
        offset,
        size,
        signed: true,
        array_type,
    }
}

#[test]
fn byte_orders_differ() {
    let bytes = [0x01u8, 0x02, 0x03, 0x04, 0x05, 0x06, 0x07, 0x08];
    assert_eq!(LittleEndian::read_u16(&bytes), 0x0201);
    assert_eq!(BigEndian::read_u16(&bytes), 0x0102);
    assert_eq!(LittleEndian::read_u32(&bytes), 0x0403_0201);
    assert_eq!(BigEndian::read_u32(&bytes), 0x0102_0304);
    assert_eq!(LittleEndian::read_u64(&bytes), 0x0807_0605_0403_0201);
    assert_eq!(BigEndian::read_u64(&bytes), 0x0102_0304_0506_0708);
    assert_eq!(LittleEndian::order(), Endianness::LittleEndian);
    assert_eq!(BigEndian::order(), Endianness::BigEndian);
}

#[test]
fn signed_conversions() {
    assert_eq!(perf_statemap::byte_order::signed_16(0xffff), -1);
    assert_eq!(perf_statemap::byte_order::signed_16(0x8000), i16::MIN);
    assert_eq!(perf_statemap::byte_order::signed_32(0xffff_fffe), -2);
    assert_eq!(perf_statemap::byte_order::signed_32(0x7fff_ffff), i32::MAX);
    assert_eq!(perf_statemap::byte_order::signed_64(0x8000_0000_0000_0000), i64::MIN);
    assert_eq!(perf_statemap::byte_order::signed_64(5), 5);
}

#[test]
fn compile_in_requested_order() {
    let fields = vec![
        field("a", 0, 4, TracepointArrayType::NotArray),
        field("b", 4, 8, TracepointArrayType::NotArray),
        field("a", 12, 2, TracepointArrayType::NotArray),
    ];
    let parser = FormatParser::new(&fields, &["b", "a"]).unwrap();
    assert_eq!(parser.len(), 2);
    assert_eq!(
        parser.op(0),
        ParseOp { offset: 4, size: 8, signed: true, array_type: TracepointArrayType::NotArray }
    );
    // Of two fields with one name the later one is read.
    assert_eq!(parser.op(1).offset, 12);
    assert_eq!(ParseOp::from(&fields[0]).offset, 0);
    let op = ParseOp::from(field("z", 7, 3, TracepointArrayType::Fixed));
    assert_eq!(
        op,
        ParseOp { offset: 7, size: 3, signed: true, array_type: TracepointArrayType::Fixed }
    );
}

#[test]
fn compile_names_first_missing_field() {
    let fields = vec![field("a", 0, 4, TracepointArrayType::NotArray)];
    match FormatParser::new(&fields, &["a", "x", "y"]) {
        Err(SchemaError::MissingField(name)) => assert_eq!(name, "x"),
        other => panic!("unexpected {other:?}"),
    }
    let e = FormatParser::new(&fields, &["zz"]).unwrap_err();
    assert_eq!(e.message(), "Missing field: zz");
}

#[test]
fn bind_checks_shapes() {
    let fields = vec![
        field("a", 0, 4, TracepointArrayType::NotArray),
        field("s", 4, 16, TracepointArrayType::Fixed),
    ];
    let shapes = [FieldShape::Number(4), FieldShape::Text];
    let parser = FormatParser::bind(&fields, &["a", "s"], &shapes).unwrap();
    assert!(parser.accepts(&shapes));
    assert!(!parser.accepts(&[FieldShape::Number(8), FieldShape::Text]));
    assert!(!parser.accepts(&[FieldShape::Number(4)]));
    match FormatParser::bind(&fields, &["s", "a"], &shapes) {
        Err(SchemaError::IncompatibleField(name)) => assert_eq!(name, "s"),
        other => panic!("unexpected {other:?}"),
    }
    match FormatParser::bind(&fields, &["a", "q"], &shapes) {
        Err(SchemaError::MissingField(name)) => assert_eq!(name, "q"),
        other => panic!("unexpected {other:?}"),
    }
}

#[test]
fn read_numbers_in_both_orders() {
    let fields = vec![
        field("b", 0, 1, TracepointArrayType::NotArray),
        field("h", 2, 2, TracepointArrayType::NotArray),
        field("w", 4, 4, TracepointArrayType::NotArray),
        field("q", 8, 8, TracepointArrayType::NotArray),
    ];
    let parser = FormatParser::new(&fields, &["b", "h", "w", "q"]).unwrap();
    let record: Vec<u8> = vec![
        0xfe, 0, 0xfe, 0xff, 0xfc, 0xff, 0xff, 0xff, 0xf8, 0xff, 0xff, 0xff, 0xff, 0xff, 0xff,
        0xff,
    ];
    assert_eq!(parser.parse_u8(0, &record), Ok(0xfe));
    assert_eq!(parser.parse_i8(0, &record), Ok(-2));
    assert_eq!(parser.parse_u16::<LittleEndian>(1, &record), Ok(0xfffe));
    assert_eq!(parser.parse_i16::<LittleEndian>(1, &record), Ok(-2));
    assert_eq!(parser.parse_u16::<BigEndian>(1, &record), Ok(0xfeff));
    assert_eq!(parser.parse_i16::<BigEndian>(1, &record), Ok(-257));
    assert_eq!(parser.parse_u32::<LittleEndian>(2, &record), Ok(0xffff_fffc));
    assert_eq!(parser.parse_i32::<LittleEndian>(2, &record), Ok(-4));
    assert_eq!(parser.parse_i32::<BigEndian>(2, &record), Ok(-50331649));
    assert_eq!(parser.parse_u64::<LittleEndian>(3, &record), Ok(0xffff_ffff_ffff_fff8));
    assert_eq!(parser.parse_i64::<LittleEndian>(3, &record), Ok(-8));
    assert_eq!(parser.parse_i64::<BigEndian>(3, &record), Ok(-504403158265495553));
    // A record that ends too early.
    assert_eq!(parser.parse_u64::<LittleEndian>(3, &record[..15]), Err(DecodeError::UnexpectedEof));
    assert_eq!(parser.parse_u8(0, &[]), Err(DecodeError::UnexpectedEof));
    assert_eq!(DecodeError::UnexpectedEof.message(), "Not enough data");
}

#[test]
fn data_loc_pointer_selects_range() {
    // The pointer 0x0010_0008 stands for 16 bytes from offset 8.
    let fields = vec![field("name", 4, 4, TracepointArrayType::DataLoc4)];
    let parser = FormatParser::new(&fields, &["name"]).unwrap();
    let mut record: Vec<u8> = (0u8..32).collect();
    record[4..8].copy_from_slice(&[0x08, 0x00, 0x10, 0x00]);
    let bytes = parser.parse_array::<LittleEndian>(0, &record).unwrap();
    assert_eq!(bytes, &record[8..24]);
    assert_eq!(bytes.len(), 16);
    record[4..8].copy_from_slice(&[0x00, 0x10, 0x00, 0x08]);
    let bytes = parser.parse_array::<BigEndian>(0, &record).unwrap();
    assert_eq!(bytes, &record[8..24]);
    // A range that reaches past the end of the record.
    record[4..8].copy_from_slice(&[0x08, 0x00, 0x19, 0x00]);
    assert_eq!(parser.parse_array::<LittleEndian>(0, &record), Err(DecodeError::UnexpectedEof));
    record[4..8].copy_from_slice(&[0x08, 0x00, 0x18, 0x00]);
    assert_eq!(parser.parse_array::<LittleEndian>(0, &record).unwrap(), &record[8..32]);
    // A pointer that the record does not hold in full.
    assert_eq!(
        parser.parse_array::<LittleEndian>(0, &record[..7]),
        Err(DecodeError::UnexpectedEof)
    );
}

#[test]
fn trailing_field_reaches_end() {
    let fields = vec![field("buf", 16, 0, TracepointArrayType::Trailing)];
    let parser = FormatParser::new(&fields, &["buf"]).unwrap();
    let record: Vec<u8> = (0u8..40).collect();
    assert_eq!(parser.parse_array::<LittleEndian>(0, &record).unwrap(), &record[16..]);
    assert_eq!(parser.parse_array::<LittleEndian>(0, &record[..16]).unwrap(), &[] as &[u8]);
    assert_eq!(
        parser.parse_array::<LittleEndian>(0, &record[..15]),
        Err(DecodeError::UnexpectedEof)
    );
}

#[test]
fn fixed_and_plain_fields_give_their_bytes() {
    let fields = vec![
        field("f", 2, 3, TracepointArrayType::Fixed),
        field("p", 1, 2, TracepointArrayType::NotArray),
    ];
    let parser = FormatParser::new(&fields, &["f", "p"]).unwrap();
    let record = [10u8, 11, 12, 13, 14, 15];
    assert_eq!(parser.parse_array::<LittleEndian>(0, &record).unwrap(), &[12u8, 13, 14]);
    assert_eq!(parser.parse_array::<LittleEndian>(1, &record).unwrap(), &[11u8, 12]);
    assert_eq!(
        parser.parse_array::<LittleEndian>(0, &record[..4]),
        Err(DecodeError::UnexpectedEof)
    );
    let op = parser.op(0);
    assert_eq!(op.get_bytes(&record).unwrap(), &[12u8, 13, 14]);
    assert_eq!(op.get_bytes_range(&record, 4).unwrap(), &[12u8, 13, 14, 15]);
    assert_eq!(op.get_bytes_range(&record, 5), Err(DecodeError::UnexpectedEof));
    assert_eq!(op.get_bytes_range(&record, usize::MAX), Err(DecodeError::UnexpectedEof));
}

#[test]
fn strings_stop_at_nul() {
    let fields = vec![field("comm", 0, 16, TracepointArrayType::Fixed)];
    let parser = FormatParser::new(&fields, &["comm"]).unwrap();
    let record = b"kworker/0:1\0xxxx";
    assert_eq!(parser.parse_string::<LittleEndian>(0, record).unwrap(), "kworker/0:1");
    assert_eq!(parser.parse_compact_string::<LittleEndian>(0, record).unwrap(), "kworker/0:1");
    // Without a zero byte the whole field is the text.
    let record = b"0123456789abcdef";
    assert_eq!(parser.parse_string::<LittleEndian>(0, record).unwrap(), "0123456789abcdef");
    // What is not UTF-8 is replaced.
    let record = b"ab\xffcd\0..........";
    assert_eq!(parser.parse_string::<LittleEndian>(0, record).unwrap(), "ab\u{fffd}cd");
    assert_eq!(parser.parse_compact_string::<LittleEndian>(0, record).unwrap(), "ab\u{fffd}cd");
    assert_eq!(
        parser.parse_string::<LittleEndian>(0, &record[..10]),
        Err(DecodeError::UnexpectedEof)
    );
}

#[test]
fn format_paths() {
    assert_eq!(
        format_path("sched:sched_switch").unwrap(),
        "/sys/kernel/tracing/events/sched/sched_switch/format"
    );
    assert_eq!(format_path("a:b:c").unwrap(), "/sys/kernel/tracing/events/a/b:c/format");
    assert!(format_path("sched_switch").is_none());
}

#[test]
fn cut_at_first_zero_byte() {
    assert_eq!(before_nul(b"ab\0cd\0"), b"ab");
    assert_eq!(before_nul(b"\0"), b"");
    assert_eq!(before_nul(b"abc"), b"abc");
    assert_eq!(before_nul(b""), b"");
}
