use tracelens::binary_header::ByteOrder;
use tracelens::error::AppError;
use tracelens::header_map::{
    decode_field, field_kind, kind_of_tag, parse_field_value, parse_trace_header_map,
    trim_padding, FieldKind, FieldValue,
};
use tracelens::header_spec::HeaderFieldSpec;

fn row(key: &str, start: u16, end: u16, data_type: &str) -> HeaderFieldSpec {
    HeaderFieldSpec {
        name: key.to_string(),
        field_key: key.to_string(),
        byte_start: start,
        byte_end: end,
        data_type: data_type.to_string(),
        description: String::new(),
        required: false,
        code_mapping: None,
    }
}

#[test]
fn type_tags_in_any_case() {
    assert_eq!(field_kind("int16"), FieldKind::Int16);
    assert_eq!(field_kind("INT32"), FieldKind::Int32);
    assert_eq!(field_kind("UInt16"), FieldKind::Uint16);
    assert_eq!(field_kind("uint32"), FieldKind::Uint32);
    assert_eq!(field_kind("uint64"), FieldKind::Uint64);
    assert_eq!(field_kind("Float64"), FieldKind::Float64);
    assert_eq!(field_kind("string"), FieldKind::Text);
    assert_eq!(field_kind("s8"), FieldKind::Text);
    assert_eq!(field_kind("int8"), FieldKind::Text);
    assert_eq!(field_kind(""), FieldKind::Text);
}

#[test]
fn numbers_in_both_byte_orders() {
    let bytes = [0xFFu8, 0xFE, 0x01, 0x02, 0x03, 0x04, 0x05, 0x06];
    let be = ByteOrder::BigEndian;
    let le = ByteOrder::LittleEndian;
    assert_eq!(parse_field_value(&bytes, "int16", be).unwrap(), FieldValue::Signed(-2));
    assert_eq!(parse_field_value(&bytes, "int16", le).unwrap(), FieldValue::Signed(-257));
    assert_eq!(parse_field_value(&bytes, "uint16", be).unwrap(), FieldValue::Unsigned(0xFFFE));
    assert_eq!(parse_field_value(&bytes, "uint16", le).unwrap(), FieldValue::Unsigned(0xFEFF));
    assert_eq!(parse_field_value(&bytes, "int32", be).unwrap(), FieldValue::Signed(-0x1FEFE));
    assert_eq!(parse_field_value(&bytes, "int32", le).unwrap(), FieldValue::Signed(0x0201FEFF));
    assert_eq!(parse_field_value(&bytes, "uint32", be).unwrap(), FieldValue::Unsigned(0xFFFE0102));
    assert_eq!(parse_field_value(&bytes, "uint32", le).unwrap(), FieldValue::Unsigned(0x0201FEFF));
    assert_eq!(
        parse_field_value(&bytes, "uint64", be).unwrap(),
        FieldValue::Unsigned(0xFFFE_0102_0304_0506)
    );
    assert_eq!(
        parse_field_value(&bytes, "uint64", le).unwrap(),
        FieldValue::Unsigned(0x0605_0403_0201_FEFF)
    );
    let one = 1.0f64.to_bits().to_be_bytes();
    match parse_field_value(&one, "float64", be).unwrap() {
        FieldValue::Float64(bits) => assert_eq!(f64::from_bits(bits), 1.0),
        other => panic!("unexpected: {:?}", other),
    }
    assert!(matches!(
        parse_field_value(&bytes[..1], "int16", be),
        Err(AppError::SegyError { .. })
    ));
    assert!(matches!(
        parse_field_value(&bytes[..7], "float64", be),
        Err(AppError::SegyError { .. })
    ));
}

#[test]
fn text_loses_its_padding() {
    let be = ByteOrder::BigEndian;
    assert_eq!(
        parse_field_value(b"\0  AB C \0\0", "string", be).unwrap(),
        FieldValue::Text("AB C".to_string())
    );
    assert_eq!(parse_field_value(b"   ", "s8", be).unwrap(), FieldValue::Text(String::new()));
    assert_eq!(parse_field_value(b"", "other", be).unwrap(), FieldValue::Text(String::new()));
    assert_eq!(
        parse_field_value(&[b'a', 0xFF, b'b'], "string", be).unwrap(),
        FieldValue::Text("a\u{FFFD}b".to_string())
    );
    assert_eq!(trim_padding(b" x "), b"x");
    assert_eq!(trim_padding(b"x"), b"x");
    assert_eq!(trim_padding(b"\0\0"), b"");
    assert_eq!(trim_padding(b"a \0 b"), b"a \0 b");
}

#[test]
fn header_read_by_a_table() {
    let mut header = vec![0u8; 240];
    header[0..4].copy_from_slice(&[0, 0, 0, 9]);
    header[114..116].copy_from_slice(&[0x01, 0x00]);
    header[200..208].copy_from_slice(b"  LINE  ");
    let table = vec![
        row("trace_seq_line", 1, 4, "int32"),
        row("num_samples", 115, 116, "int16"),
        row("label", 201, 208, "string"),
        row("from_zero", 0, 2, "uint16"),
    ];
    let values = parse_trace_header_map(&header, &table, ByteOrder::BigEndian).unwrap();
    assert_eq!(
        values,
        vec![
            ("trace_seq_line".to_string(), FieldValue::Signed(9)),
            ("num_samples".to_string(), FieldValue::Signed(256)),
            ("label".to_string(), FieldValue::Text("LINE".to_string())),
            ("from_zero".to_string(), FieldValue::Unsigned(0)),
        ]
    );
    let little = parse_trace_header_map(&header, &table, ByteOrder::LittleEndian).unwrap();
    assert_eq!(little[1].1, FieldValue::Signed(1));
    assert!(parse_trace_header_map(&header, &Vec::new(), ByteOrder::BigEndian)
        .unwrap()
        .is_empty());
}

#[test]
fn header_map_errors() {
    let header = vec![0u8; 240];
    let be = ByteOrder::BigEndian;
    assert!(matches!(
        parse_trace_header_map(&header[..239], &Vec::new(), be),
        Err(AppError::SegyError { .. })
    ));
    assert!(matches!(
        parse_trace_header_map(&header, &vec![row("beyond", 239, 241, "int16")], be),
        Err(AppError::SegyError { .. })
    ));
    assert!(matches!(
        parse_trace_header_map(&header, &vec![row("backwards", 10, 5, "string")], be),
        Err(AppError::SegyError { .. })
    ));
    assert!(matches!(
        parse_trace_header_map(&header, &vec![row("short", 1, 2, "int32")], be),
        Err(AppError::SegyError { .. })
    ));
    // An empty range is text of no length.
    let values = parse_trace_header_map(&header, &vec![row("empty", 5, 4, "string")], be).unwrap();
    assert_eq!(values[0].1, FieldValue::Text(String::new()));
}

#[test]
fn lowered_tags_and_decoding_by_kind() {
    assert_eq!(kind_of_tag("int16"), FieldKind::Int16);
    assert_eq!(kind_of_tag("int32"), FieldKind::Int32);
    assert_eq!(kind_of_tag("uint16"), FieldKind::Uint16);
    assert_eq!(kind_of_tag("uint32"), FieldKind::Uint32);
    assert_eq!(kind_of_tag("uint64"), FieldKind::Uint64);
    assert_eq!(kind_of_tag("float64"), FieldKind::Float64);
    // The tag is taken as it is: capitals name no number.
    assert_eq!(kind_of_tag("INT16"), FieldKind::Text);
    assert_eq!(kind_of_tag("string"), FieldKind::Text);
    let bytes = [0x80u8, 0x01, 0x02, 0x03, 0, 0, 0, 1];
    let be = ByteOrder::BigEndian;
    let le = ByteOrder::LittleEndian;
    assert_eq!(decode_field(&bytes, FieldKind::Int16, be).unwrap(), FieldValue::Signed(-32767));
    assert_eq!(decode_field(&bytes, FieldKind::Int16, le).unwrap(), FieldValue::Signed(0x0180));
    assert_eq!(decode_field(&bytes, FieldKind::Uint16, be).unwrap(), FieldValue::Unsigned(0x8001));
    assert_eq!(
        decode_field(&bytes, FieldKind::Int32, be).unwrap(),
        FieldValue::Signed(0x80010203u32 as i32 as i64)
    );
    assert_eq!(
        decode_field(&bytes, FieldKind::Uint32, le).unwrap(),
        FieldValue::Unsigned(0x03020180)
    );
    assert_eq!(
        decode_field(&bytes, FieldKind::Uint64, be).unwrap(),
        FieldValue::Unsigned(0x8001_0203_0000_0001)
    );
    assert_eq!(
        decode_field(&bytes, FieldKind::Float64, le).unwrap(),
        FieldValue::Float64(0x0100_0000_0302_0180)
    );
    assert_eq!(
        decode_field(b" ab ", FieldKind::Text, be).unwrap(),
        FieldValue::Text("ab".to_string())
    );
    assert!(matches!(
        decode_field(&bytes[..3], FieldKind::Uint32, be),
        Err(AppError::SegyError { .. })
    ));
    assert!(decode_field(&[], FieldKind::Text, be).is_ok());
}

#[test]
fn a_repeated_key_has_the_value_of_its_last_field() {
    let mut header = vec![0u8; 240];
    header[0..2].copy_from_slice(&[0, 1]);
    header[2..4].copy_from_slice(&[0, 2]);
    header[4..6].copy_from_slice(&[0, 3]);
    let table = vec![
        row("a", 1, 2, "int16"),
        row("b", 3, 4, "int16"),
        row("a", 5, 6, "uint16"),
        row("c", 1, 2, "int16"),
        row("b", 1, 2, "int16"),
    ];
    let values = parse_trace_header_map(&header, &table, ByteOrder::BigEndian).unwrap();
    assert_eq!(
        values,
        vec![
            ("a".to_string(), FieldValue::Unsigned(3)),
            ("b".to_string(), FieldValue::Signed(1)),
            ("c".to_string(), FieldValue::Signed(1)),
        ]
    );
    // A later field that cannot be read fails the whole header.
    let broken = vec![row("a", 1, 2, "int16"), row("a", 1, 2, "int32")];
    assert!(parse_trace_header_map(&header, &broken, ByteOrder::BigEndian).is_err());
}
