use rust_sqlite::cursor::cursor::Cursor;
use rust_sqlite::cursor::record::{parse_record_header, RecordField, RecordFieldType, RecordHeader};
use rust_sqlite::cursor::value::{compare_real_lit, OwnedValue, Value};
use rust_sqlite::error::ErrorKind;

#[test]
fn field_null() {
    let header = RecordHeader {
        fields: vec![RecordField { offset: 0, field_type: RecordFieldType::Null }],
    };

    let cursor = Cursor {
        header,
        payload: vec![], // No payload needed for null
    };

    let field = cursor.field(0);
    assert_eq!(field, Some(Value::Null));
}

#[test]
fn field_i8() {
    let header = RecordHeader {
        fields: vec![RecordField { offset: 0, field_type: RecordFieldType::I8 }],
    };

    let cursor = Cursor {
        header,
        payload: vec![0xFF], // -1 as i8
    };

    let field = cursor.field(0);
    assert_eq!(field, Some(Value::Int(-1)));
}

#[test]
fn field_i16() {
    let header = RecordHeader {
        fields: vec![RecordField { offset: 0, field_type: RecordFieldType::I16 }],
    };

    let cursor = Cursor {
        header,
        payload: vec![0xFF, 0xFE], // -2 as i16 in big endian
    };

    let field = cursor.field(0);
    assert_eq!(field, Some(Value::Int(-2)));
}

#[test]
fn field_string() {
    let header = RecordHeader {
        fields: vec![RecordField {
            offset: 0,
            field_type: RecordFieldType::String(5), // String of length 5
        }],
    };

    let cursor = Cursor { header, payload: b"hello".to_vec() };

    let field = cursor.field(0);
    assert_eq!(field, Some(Value::String("hello".to_string())));
}

#[test]
fn field_blob() {
    let header = RecordHeader {
        fields: vec![RecordField {
            offset: 0,
            field_type: RecordFieldType::Blob(3), // Blob of length 3
        }],
    };

    let cursor = Cursor { header, payload: vec![0x01, 0x02, 0x03] };

    let field = cursor.field(0);
    assert_eq!(field, Some(Value::Blob(vec![0x01, 0x02, 0x03])));
}

#[test]
fn field_out_of_bounds() {
    let header = RecordHeader {
        fields: vec![RecordField { offset: 0, field_type: RecordFieldType::Null }],
    };

    let cursor = Cursor { header, payload: vec![] };

    let field = cursor.field(5); // Index out of bounds
    assert_eq!(field, None);
}

#[test]
fn owned_field() {
    let header = RecordHeader {
        fields: vec![RecordField { offset: 0, field_type: RecordFieldType::I8 }],
    };

    let cursor = Cursor {
        header,
        payload: vec![0x2A], // 42 as i8
    };

    let owned_field = cursor.owned_field(0);
    if let Some(OwnedValue::Int(value)) = owned_field {
        assert_eq!(value, 42);
    } else {
        panic!("Expected Some(OwnedValue::Int(42))");
    }
}

#[test]
fn record_header_with_typed_fields() {
    // Header length 4: serial types 0 (null), 1 (i8), 2 (i16) and 0x13, a
    // 3-byte string; bodies follow tightly packed.
    let payload: Vec<u8> = vec![0x04, 0x00, 0x01, 0x02, 0x13, 0x2a, 0x00, 0x05, 0x68, 0x69, 0x21];
    let header = parse_record_header(&payload).unwrap();
    assert_eq!(header.fields.len(), 4);
    assert_eq!(header.fields[0].field_type, RecordFieldType::Null);
    assert_eq!(header.fields[1].field_type, RecordFieldType::I8);
    assert_eq!(header.fields[2].field_type, RecordFieldType::I16);
    assert_eq!(header.fields[3].field_type, RecordFieldType::String(3));

    let cursor = Cursor { header, payload };
    assert_eq!(cursor.field(0), Some(Value::Null));
    assert_eq!(cursor.field(1), Some(Value::Int(42)));
    assert_eq!(cursor.field(2), Some(Value::Int(5)));
    assert_eq!(cursor.field(3), Some(Value::String("hi!".to_string())));
}

#[test]
fn record_header_unsupported_serial_type() {
    // Header length 1, holding the reserved serial type 10.
    let payload: Vec<u8> = vec![0x01, 0x0a];
    let result = parse_record_header(&payload);
    assert!(result.is_err());
    assert!(result.unwrap_err().message.contains("unsupported field type"));
}

#[test]
fn record_header_out_of_bounds() {
    // Declared header length 2, but only one byte follows the length.
    let payload: Vec<u8> = vec![0x02, 0x01];
    let err = parse_record_header(&payload).unwrap_err();
    assert_eq!(err.kind, ErrorKind::Bounds);
}

#[test]
fn real_bits_against_decimal_literals() {
    // mantissa / 10^scale, compared with the number a bit pattern encodes.
    assert_eq!(compare_real_lit(1.5f64.to_bits(), 15, 1), Some(0));
    assert_eq!(compare_real_lit(1.25f64.to_bits(), 125, 2), Some(0));
    assert_eq!(compare_real_lit(2.0f64.to_bits(), 2, 0), Some(0));
    // The double nearest to 1.1 lies just above the exact decimal 1.1.
    assert_eq!(compare_real_lit(1.1f64.to_bits(), 11, 1), Some(1));
    assert_eq!(compare_real_lit(0.1f64.to_bits(), 1, 1), Some(1));
    assert_eq!(compare_real_lit(1.0f64.to_bits(), 15, 1), Some(-1));
    assert_eq!(compare_real_lit((-2.5f64).to_bits(), 25, 1), Some(-1));
    // Signed zeros equal the zero literal.
    assert_eq!(compare_real_lit(0.0f64.to_bits(), 0, 0), Some(0));
    assert_eq!(compare_real_lit((-0.0f64).to_bits(), 0, 0), Some(0));
    // The smallest subnormal sits strictly between 0 and any positive
    // decimal a literal can write.
    assert_eq!(compare_real_lit(1u64, 0, 0), Some(1));
    assert_eq!(compare_real_lit(1u64, 1, 18), Some(-1));
    // Infinities order past every literal; NaN patterns compare as nothing.
    assert_eq!(compare_real_lit(f64::INFINITY.to_bits(), u64::MAX, 0), Some(1));
    assert_eq!(compare_real_lit(f64::NEG_INFINITY.to_bits(), 0, 0), Some(-1));
    assert_eq!(compare_real_lit(f64::NAN.to_bits(), 0, 0), None);
}

#[test]
fn record_fields_are_contiguous() {
    // Serial types i8, i16, text(2): offsets 4, 5, 7 after the header.
    let payload: Vec<u8> = vec![0x03, 0x01, 0x02, 0x11, 0x07, 0x01, 0x05, 0x68, 0x69];
    let header = parse_record_header(&payload).unwrap();
    assert_eq!(header.fields[0].offset, 4);
    assert_eq!(header.fields[1].offset, 5);
    assert_eq!(header.fields[2].offset, 7);
}
