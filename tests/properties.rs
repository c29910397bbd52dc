use membuffer::{
    MemBufferDeserialize, MemBufferError, MemBufferReader, MemBufferSerialize, MemBufferTypes,
    MemBufferWriter, Position, SENTINEL,
};

fn record(bytes: &mut Vec<u8>, offset: i32, length: i32, tag: i32, key: i32) {
    bytes.extend_from_slice(&offset.to_ne_bytes());
    bytes.extend_from_slice(&length.to_ne_bytes());
    bytes.extend_from_slice(&tag.to_ne_bytes());
    bytes.extend_from_slice(&key.to_ne_bytes());
}

fn sentinel(bytes: &mut Vec<u8>) {
    bytes.extend_from_slice(&SENTINEL.to_ne_bytes());
}

#[test]
fn round_trip_of_every_builtin_type_in_any_order() {
    let words: Vec<u64> = vec![u64::MAX, 0, 1 << 40, 7];
    let raw: Vec<u8> = vec![0, 255, 3];
    let owned = String::from("owned text");
    let mut inner = MemBufferWriter::new();
    inner.add_entry(5, "inside");
    let mut writer = MemBufferWriter::new();
    writer.add_entry(10, "text");
    writer.add_entry(-4, -123456);
    writer.add_entry(7, &raw[..]);
    writer.add_entry(3, &words[..]);
    writer.add_entry(8, &owned);
    writer.add_entry(9, words.clone());
    writer.add_entry(1, inner);
    let result = writer.finalize();
    let reader = MemBufferReader::new(&result).unwrap();

    assert_eq!(reader.len(), 7);
    let nested = reader.load_recursive_reader(1).unwrap();
    assert_eq!(nested.load_entry::<&str>(5).unwrap(), "inside");
    assert_eq!(reader.load_entry::<Vec<u64>>(9).unwrap(), words);
    assert_eq!(reader.load_entry::<&str>(8).unwrap(), "owned text");
    assert_eq!(reader.load_entry::<Vec<u64>>(3).unwrap(), words);
    assert_eq!(reader.load_entry::<&[u8]>(7).unwrap(), &raw[..]);
    assert_eq!(reader.load_entry::<i32>(-4).unwrap(), -123456);
    assert_eq!(reader.load_entry::<&str>(10).unwrap(), "text");
}

#[test]
fn unknown_key_names_the_key() {
    let mut writer = MemBufferWriter::new();
    writer.add_entry(0, "Earth");
    let result = writer.finalize();
    let reader = MemBufferReader::new(&result).unwrap();
    match reader.load_entry::<&str>(7) {
        Err(MemBufferError::FieldUnknown(m)) => assert_eq!(m, "No such field 7 in MemBufferDeserialize"),
        _ => panic!("expected FieldUnknown"),
    }
    match reader.load_entry::<i32>(-35) {
        Err(MemBufferError::FieldUnknown(m)) => assert_eq!(m, "No such field -35 in MemBufferDeserialize"),
        _ => panic!("expected FieldUnknown"),
    }
    assert!(matches!(reader.load_recursive_reader(2), Err(MemBufferError::FieldUnknown(_))));
    assert!(matches!(reader.load_serde_entry::<i32>(2), Err(MemBufferError::FieldUnknown(_))));
}

#[test]
fn type_mismatch_carries_both_tags() {
    let mut writer = MemBufferWriter::new();
    writer.add_entry(0, "Earth");
    writer.add_entry(1, 42);
    let result = writer.finalize();
    let reader = MemBufferReader::new(&result).unwrap();
    assert!(matches!(reader.load_entry::<i32>(0), Err(MemBufferError::FieldTypeError(0, 1))));
    assert!(matches!(reader.load_entry::<&str>(1), Err(MemBufferError::FieldTypeError(1, 0))));
    assert!(matches!(reader.load_entry::<&[u8]>(0), Err(MemBufferError::FieldTypeError(0, 2))));
    assert!(matches!(reader.load_recursive_reader(1), Err(MemBufferError::FieldTypeError(1, 4))));
    assert!(matches!(reader.load_serde_entry::<i32>(1), Err(MemBufferError::FieldTypeError(1, 0))));
}

#[test]
fn every_cut_before_the_sentinel_end_is_malformed() {
    let mut writer = MemBufferWriter::new();
    writer.add_entry(0, "Earth");
    writer.add_entry(1, 9);
    let result = writer.finalize();
    let header = 2 * 16 + 4;
    for n in 0..header {
        assert!(matches!(MemBufferReader::new(&result[..n]), Err(MemBufferError::WrongFormat)));
    }
    let full = MemBufferReader::new(&result[..header]).unwrap();
    assert_eq!(full.len(), 2);
    assert_eq!(full.payload_len(), 0);
    let empty = MemBufferWriter::new().finalize();
    assert!(matches!(MemBufferReader::new(&empty[0..1]), Err(MemBufferError::WrongFormat)));
}

#[test]
fn empty_writer_gives_empty_reader() {
    let empty = MemBufferWriter::new().finalize();
    assert_eq!(empty, SENTINEL.to_ne_bytes().to_vec());
    let reader = MemBufferReader::new(&empty).unwrap();
    assert_eq!(reader.len(), 0);
    assert_eq!(reader.payload_len(), 0);
}

#[test]
fn integer_is_inline() {
    let mut writer = MemBufferWriter::new();
    writer.add_entry(0, 100);
    let result = writer.finalize();
    assert_eq!(result.len(), 16 + 4);
    let reader = MemBufferReader::new(&result).unwrap();
    assert_eq!(reader.load_entry::<i32>(0).unwrap(), 100);
    let d = reader.field(0).unwrap();
    assert_eq!(d.pos, Position { offset: 100, length: 0 });
    assert_eq!(reader.payload_len(), 0);
}

#[test]
fn nested_buffer_reads_back() {
    let mut inner = MemBufferWriter::new();
    inner.add_entry(0, "X");
    let mut outer = MemBufferWriter::new();
    outer.add_entry(3, "plain");
    outer.add_entry(4, inner);
    let result = outer.finalize();
    let reader = MemBufferReader::new(&result).unwrap();
    let nested = reader.load_recursive_reader(4).unwrap();
    assert_eq!(nested.len(), 1);
    assert_eq!(nested.load_entry::<&str>(0).unwrap(), "X");
    assert!(matches!(reader.load_recursive_reader(3), Err(MemBufferError::FieldTypeError(0, 4))));
}

#[test]
fn end_to_end_earth() {
    let mut writer = MemBufferWriter::new();
    writer.add_entry(0, "Earth");
    let result = writer.finalize();
    let reader = MemBufferReader::new(&result).unwrap();
    assert_eq!(reader.load_entry::<&str>(0).unwrap(), "Earth");
    let err = reader.load_entry::<i32>(0).unwrap_err();
    assert!(matches!(err, MemBufferError::FieldTypeError(0, 1)));
}

#[test]
fn large_payloads_stay_apart() {
    let a = "a".repeat(1_000_000);
    let b = "b".repeat(1_000_000);
    let c = "c".repeat(1_000_000);
    let mut writer = MemBufferWriter::new();
    writer.add_entry(0, a.as_str());
    writer.add_entry(1, b.as_str());
    writer.add_entry(2, c.as_str());
    let result = writer.finalize();
    assert!(result.len() > 3_000_000);
    let reader = MemBufferReader::new(&result).unwrap();
    let s0 = reader.load_entry::<&str>(0).unwrap();
    let s1 = reader.load_entry::<&str>(1).unwrap();
    let s2 = reader.load_entry::<&str>(2).unwrap();
    assert_eq!(s0.len(), 1_000_000);
    assert_eq!(s1.len(), 1_000_000);
    assert_eq!(s2.len(), 1_000_000);
    assert_eq!(s0, a);
    assert_eq!(s1, b);
    assert_eq!(s2, c);
    assert_eq!(reader.payload_len(), 3_000_000);
}

#[test]
fn later_write_to_a_key_wins() {
    let mut writer = MemBufferWriter::new();
    writer.add_entry(0, "a");
    writer.add_entry(1, 5);
    writer.add_entry(0, "bb");
    let result = writer.finalize();
    let reader = MemBufferReader::new(&result).unwrap();
    assert_eq!(reader.len(), 2);
    assert_eq!(reader.load_entry::<&str>(0).unwrap(), "bb");
    assert_eq!(reader.payload_len(), 3);
    assert_eq!(reader.field(0).unwrap().pos, Position { offset: 1, length: 2 });
}

#[test]
fn finalize_is_repeatable_and_byte_exact() {
    let mut writer = MemBufferWriter::new();
    writer.add_entry(6, "hi");
    writer.add_entry(2, 77);
    let first = writer.finalize();
    assert_eq!(writer.finalize(), first);
    let mut expected: Vec<u8> = Vec::new();
    record(&mut expected, 0, 2, MemBufferTypes::Text as i32, 6);
    record(&mut expected, 77, 0, MemBufferTypes::Integer32 as i32, 2);
    sentinel(&mut expected);
    expected.extend_from_slice(b"hi");
    assert_eq!(first, expected);
}

#[test]
fn hand_made_buffer_parses() {
    let mut bytes: Vec<u8> = Vec::new();
    record(&mut bytes, 0, 3, MemBufferTypes::VectorU8 as i32, 9);
    record(&mut bytes, -34253, 0, MemBufferTypes::Integer32 as i32, 4);
    sentinel(&mut bytes);
    bytes.extend_from_slice(&[1, 2, 3, 4]);
    let reader = MemBufferReader::new(&bytes).unwrap();
    assert_eq!(reader.load_entry::<&[u8]>(9).unwrap(), &[1u8, 2, 3][..]);
    assert_eq!(reader.load_entry::<i32>(4).unwrap(), -34253);
    assert_eq!(reader.payload_len(), 4);
}

#[test]
fn duplicate_keys_in_a_buffer_keep_the_last_record() {
    let mut bytes: Vec<u8> = Vec::new();
    record(&mut bytes, 1, 0, MemBufferTypes::Integer32 as i32, 0);
    record(&mut bytes, 2, 0, MemBufferTypes::Integer32 as i32, 0);
    sentinel(&mut bytes);
    let reader = MemBufferReader::new(&bytes).unwrap();
    assert_eq!(reader.len(), 1);
    assert_eq!(reader.load_entry::<i32>(0).unwrap(), 2);
}

#[test]
fn invalid_utf8_is_wrong_format() {
    let mut bytes: Vec<u8> = Vec::new();
    record(&mut bytes, 0, 2, MemBufferTypes::Text as i32, 0);
    sentinel(&mut bytes);
    bytes.extend_from_slice(&[0xff, 0xfe]);
    let reader = MemBufferReader::new(&bytes).unwrap();
    assert!(matches!(reader.load_entry::<&str>(0), Err(MemBufferError::WrongFormat)));
    assert!(matches!(reader.load_serde_entry::<i32>(0), Err(MemBufferError::WrongFormat)));
}

#[test]
fn field_outside_payload_is_wrong_format() {
    let mut bytes: Vec<u8> = Vec::new();
    record(&mut bytes, 2, 5, MemBufferTypes::VectorU8 as i32, 0);
    record(&mut bytes, -1, 1, MemBufferTypes::Text as i32, 1);
    record(&mut bytes, 0, 4, MemBufferTypes::MemBuffer as i32, 2);
    sentinel(&mut bytes);
    bytes.extend_from_slice(&[1, 2, 3, 4]);
    let reader = MemBufferReader::new(&bytes).unwrap();
    assert!(matches!(reader.load_entry::<&[u8]>(0), Err(MemBufferError::WrongFormat)));
    assert!(matches!(reader.load_entry::<&str>(1), Err(MemBufferError::WrongFormat)));
    assert!(matches!(reader.load_recursive_reader(2), Err(MemBufferError::WrongFormat)));
}

#[test]
fn word_field_of_odd_length_is_wrong_format() {
    let mut bytes: Vec<u8> = Vec::new();
    record(&mut bytes, 0, 12, MemBufferTypes::VectorU64 as i32, 0);
    sentinel(&mut bytes);
    bytes.extend_from_slice(&[0; 12]);
    let reader = MemBufferReader::new(&bytes).unwrap();
    assert!(matches!(reader.load_entry::<Vec<u64>>(0), Err(MemBufferError::WrongFormat)));
}

#[test]
fn words_use_native_byte_order() {
    let words: Vec<u64> = vec![0x0102030405060708, 9];
    let mut writer = MemBufferWriter::new();
    writer.add_entry(0, &words[..]);
    let result = writer.finalize();
    let mut expected: Vec<u8> = Vec::new();
    expected.extend_from_slice(&words[0].to_ne_bytes());
    expected.extend_from_slice(&words[1].to_ne_bytes());
    assert_eq!(&result[20..], &expected[..]);
    let pos = Position { offset: 0, length: 16 };
    let decoded = <Vec<u64> as MemBufferDeserialize<Vec<u64>>>::from_mem_buffer(&pos, &expected).unwrap();
    assert_eq!(decoded, words);
}

#[test]
fn i32_helpers_use_native_byte_order() {
    let mut out: Vec<u8> = vec![9];
    MemBufferWriter::serialize_i32_to(-34253, &mut out);
    assert_eq!(out, [&[9u8][..], &(-34253i32).to_ne_bytes()[..]].concat());
    assert_eq!(MemBufferReader::deserialize_i32_from(&out[1..]), -34253);
    assert_eq!(MemBufferReader::deserialize_i32_from(&[7, 0, 0, 0, 99]), i32::from_ne_bytes([7, 0, 0, 0]));
}

#[test]
fn serde_values_round_trip() {
    let mut writer = MemBufferWriter::new();
    writer.add_serde_entry(3, &vec![1u64, 2, 3]).unwrap();
    writer.add_serde_entry(4, &String::from("quoted")).unwrap();
    let result = writer.finalize();
    let reader = MemBufferReader::new(&result).unwrap();
    assert_eq!(reader.load_entry::<&str>(3).unwrap(), "[1,2,3]");
    assert_eq!(reader.load_serde_entry::<Vec<u64>>(3).unwrap(), vec![1, 2, 3]);
    assert_eq!(reader.load_serde_entry::<String>(4).unwrap(), "quoted");
}

#[test]
fn serde_text_that_does_not_parse_is_parse_error() {
    let mut writer = MemBufferWriter::new();
    writer.add_entry(0, "not json");
    let result = writer.finalize();
    let reader = MemBufferReader::new(&result).unwrap();
    assert!(matches!(reader.load_serde_entry::<Vec<u64>>(0), Err(MemBufferError::ParseError)));
}

#[test]
fn serde_value_that_cannot_be_written_is_parse_error() {
    let mut map: std::collections::BTreeMap<(i32, i32), i32> = std::collections::BTreeMap::new();
    map.insert((1, 2), 3);
    let mut writer = MemBufferWriter::new();
    writer.add_entry(0, "kept");
    assert!(matches!(writer.add_serde_entry(1, &map), Err(MemBufferError::ParseError)));
    let result = writer.finalize();
    let reader = MemBufferReader::new(&result).unwrap();
    assert_eq!(reader.len(), 1);
    assert_eq!(reader.payload_len(), 4);
}

#[test]
fn try_add_text_adds_text() {
    let mut writer = MemBufferWriter::new();
    writer.try_add_text(2, "héllo").unwrap();
    let result = writer.finalize();
    let reader = MemBufferReader::new(&result).unwrap();
    assert_eq!(reader.load_entry::<&str>(2).unwrap(), "héllo");
    assert_eq!(reader.payload_len(), 6);
}

#[test]
fn error_texts() {
    assert_eq!(
        MemBufferError::FieldUnknown(String::from("x")).to_string(),
        "Memory buffer error: Field x unknown"
    );
    assert_eq!(
        MemBufferError::FieldTypeError(0, -1).to_string(),
        "Memory buffer error: Field has type 0 and not requested type -1"
    );
    assert_eq!(
        MemBufferError::WrongFormat.to_string(),
        "Memory buffer error: Reached end of slice before end of header, memory seems to be corrupted"
    );
    assert_eq!(
        MemBufferError::ParseError.to_string(),
        "Memory buffer error: Field could not be parsed as a structured value"
    );
}

#[test]
fn describe_names_payload_size() {
    let mut writer = MemBufferWriter::new();
    writer.add_entry(0, "12345678901");
    let result = writer.finalize();
    let reader = MemBufferReader::new(&result).unwrap();
    assert_eq!(reader.describe(), "Found memory buffer with payload size 11");
}

#[test]
fn tag_codes() {
    assert_eq!(i32::from(MemBufferTypes::Text), 0);
    assert_eq!(i32::from(MemBufferTypes::Integer32), 1);
    assert_eq!(i32::from(MemBufferTypes::VectorU8), 2);
    assert_eq!(i32::from(MemBufferTypes::VectorU64), 3);
    assert_eq!(i32::from(MemBufferTypes::MemBuffer), 4);
    let last: i32 = MemBufferTypes::LastPreDefienedValue.into();
    assert_eq!(last, 5);
    assert_eq!(<Vec<u64> as MemBufferSerialize>::get_mem_buffer_type(), 3);
}
