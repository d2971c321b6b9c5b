use rust_sqlite::dbheader::{format_header, parse_header, DbHeader};
use rust_sqlite::{read_be_byte_at, read_be_double_at, read_be_word_at, read_varint_at, write_varint};

#[test]
fn test_lib_functions() {
    // Test the helper functions in lib.rs
    let buffer = [0x02, 0x01]; // Represents the value 257 as a varint
    let (size, value) = read_varint_at(&buffer, 0);
    assert_eq!(size, 1);
    assert_eq!(value, 2);

    let buffer = [0x01, 0x00]; // 256 as big-endian u16
    let value = read_be_word_at(&buffer, 0);
    assert_eq!(value, 256);

    let buffer = [0x40]; // Single byte
    let value = read_be_byte_at(&buffer, 0);
    assert_eq!(value, 0x40);

    let buffer = [0x00, 0x00, 0x01, 0x00]; // 256 as big-endian u32
    let value = read_be_double_at(&buffer, 0);
    assert_eq!(value, 256);
}

#[test]
fn varint_round_trip_values() {
    let samples: [i64; 12] = [
        0,
        1,
        127,
        128,
        300,
        16383,
        16384,
        123456789,
        i64::MAX,
        -1,
        -42,
        i64::MIN,
    ];
    for &v in samples.iter() {
        let bytes = write_varint(v);
        assert!(bytes.len() >= 1 && bytes.len() <= 9);
        let (consumed, decoded) = read_varint_at(&bytes, 0);
        assert_eq!(consumed as usize, bytes.len());
        assert_eq!(decoded, v);
    }
}

#[test]
fn varint_known_encodings() {
    // 300 = 0b10_0101100: two bytes, big-endian base 128.
    assert_eq!(write_varint(300), vec![0x82, 0x2c]);
    // Negative values always take the full 9 bytes.
    assert_eq!(write_varint(-1).len(), 9);
    assert_eq!(write_varint(-1), vec![0xff, 0xff, 0xff, 0xff, 0xff, 0xff, 0xff, 0xff, 0xff]);
}

#[test]
fn header_round_trip() {
    let header = DbHeader {
        page_size: 4096,
        file_format_w: 1,
        file_format_r: 2,
        max_embedded_payload: 64,
        min_embedded_payload: 32,
        leaf_payload_fraction: 32,
        file_change_counter: 7,
        db_size: 3,
        schema_cookie: 9,
        sq_version: 3047000,
    };
    let bytes = format_header(&header);
    assert_eq!(bytes.len(), 100);
    let parsed = parse_header(&bytes).unwrap();
    assert_eq!(parsed, header);

    let max = DbHeader { page_size: 65536, ..header };
    let parsed_max = parse_header(&format_header(&max)).unwrap();
    assert_eq!(parsed_max, max);
}
