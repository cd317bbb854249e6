use bindless::gguf::{
    read_gguf_value, read_string, read_u32, read_u64, skip_value, Cursor, GgufError, GgufValue,
};

#[test]
fn test_read_u32() {
    let bytes = vec![0x78, 0x56, 0x34, 0x12];
    let mut cursor = Cursor::new(&bytes);
    assert_eq!(read_u32(&mut cursor), Ok(0x12345678));
    assert_eq!(cursor.pos, 4);
}

#[test]
fn test_read_u64() {
    let bytes = vec![0xEF, 0xCD, 0xAB, 0x89, 0x67, 0x45, 0x23, 0x01];
    let mut cursor = Cursor::new(&bytes);
    assert_eq!(read_u64(&mut cursor), Ok(0x0123456789ABCDEF));
}

#[test]
fn test_read_string() {
    let mut bytes = vec![0x05, 0x00, 0x00, 0x00, 0x00, 0x00, 0x00, 0x00];
    bytes.extend_from_slice(b"hello");
    let mut cursor = Cursor::new(&bytes);
    assert_eq!(read_string(&mut cursor).unwrap(), "hello");
}

#[test]
fn test_read_gguf_value_u32() {
    let bytes = vec![0x78, 0x56, 0x34, 0x12];
    let mut cursor = Cursor::new(&bytes);
    match read_gguf_value(&mut cursor, 4) {
        Ok(GgufValue::U32(v)) => assert_eq!(v, 0x12345678),
        _ => panic!("Expected U32"),
    }
}

#[test]
fn test_read_gguf_value_f32() {
    let f = std::f32::consts::PI;
    let bytes = f.to_le_bytes().to_vec();
    let mut cursor = Cursor::new(&bytes);
    match read_gguf_value(&mut cursor, 6) {
        Ok(GgufValue::F32(v)) => assert!((f32::from_bits(v) - f).abs() < 1e-6),
        _ => panic!("Expected F32"),
    }
}

#[test]
fn test_read_gguf_value_string() {
    let mut bytes = vec![0x04, 0x00, 0x00, 0x00, 0x00, 0x00, 0x00, 0x00];
    bytes.extend_from_slice(b"test");
    let mut cursor = Cursor::new(&bytes);
    match read_gguf_value(&mut cursor, 8) {
        Ok(GgufValue::String(v)) => assert_eq!(v, "test"),
        _ => panic!("Expected String"),
    }
}

#[test]
fn test_read_gguf_value_bool() {
    let bytes = vec![0x01];
    let mut cursor = Cursor::new(&bytes);
    match read_gguf_value(&mut cursor, 7) {
        Ok(GgufValue::Bool(v)) => assert!(v),
        _ => panic!("Expected Bool"),
    }
}

#[test]
fn test_read_gguf_value_unknown_type() {
    let bytes = vec![0x00];
    let mut cursor = Cursor::new(&bytes);
    assert!(matches!(
        read_gguf_value(&mut cursor, 99),
        Err(GgufError::UnknownValueType(99))
    ));
    assert_eq!(cursor.pos, 0);
}

#[test]
fn test_skip_value_u8() {
    let bytes = vec![0xFF, 0x00];
    let mut cursor = Cursor::new(&bytes);
    assert_eq!(skip_value(&mut cursor, 0), Ok(()));
    assert_eq!(&cursor.data[0..1], &[0xFF]);
    assert_eq!(cursor.pos, 1);
}

#[test]
fn test_skip_value_nested_array() {
    // outer array: item_type=9 (array), len=1
    let mut stream = Vec::new();
    stream.extend_from_slice(&9u32.to_le_bytes());
    stream.extend_from_slice(&1u64.to_le_bytes());
    // inner array: item_type=4 (u32), len=2
    stream.extend_from_slice(&4u32.to_le_bytes());
    stream.extend_from_slice(&2u64.to_le_bytes());
    // two u32 elements
    stream.extend_from_slice(&[0u8; 8]);
    let mut cursor = Cursor::new(&stream);
    assert_eq!(skip_value(&mut cursor, 9), Ok(()));
    assert_eq!(cursor.pos, 4 + 8 + 4 + 8 + 8);
}

#[test]
fn test_skip_value_unknown_type() {
    let bytes = vec![0u8; 4];
    let mut cursor = Cursor::new(&bytes);
    assert_eq!(
        skip_value(&mut cursor, 99),
        Err(GgufError::UnknownValueType(99))
    );
}

#[test]
fn a_stream_that_ends_inside_a_value_is_refused() {
    let bytes = vec![1, 2, 3];
    let mut cursor = Cursor::new(&bytes);
    assert_eq!(read_u32(&mut cursor), Err(GgufError::UnexpectedEnd));
    assert_eq!(read_u64(&mut cursor), Err(GgufError::UnexpectedEnd));
    assert_eq!(cursor.pos, 0);
}

#[test]
fn a_string_that_is_no_utf8_is_refused() {
    let mut bytes = vec![2, 0, 0, 0, 0, 0, 0, 0];
    bytes.extend_from_slice(&[0xC3, 0x28]);
    let mut cursor = Cursor::new(&bytes);
    assert_eq!(
        read_string(&mut cursor).unwrap_err(),
        GgufError::InvalidUtf8
    );
}

#[test]
fn a_string_beyond_ascii_is_decoded() {
    let text = "naïve → 𝄞";
    let mut bytes = (text.len() as u64).to_le_bytes().to_vec();
    bytes.extend_from_slice(text.as_bytes());
    let mut cursor = Cursor::new(&bytes);
    assert_eq!(read_string(&mut cursor).unwrap(), text);
    assert_eq!(cursor.pos, bytes.len() as u64);
}

#[test]
fn signed_values_keep_their_sign() {
    let bytes = vec![0xFF; 8];
    assert!(matches!(
        read_gguf_value(&mut Cursor::new(&bytes), 1),
        Ok(GgufValue::I8(-1))
    ));
    assert!(matches!(
        read_gguf_value(&mut Cursor::new(&bytes), 3),
        Ok(GgufValue::I16(-1))
    ));
    assert!(matches!(
        read_gguf_value(&mut Cursor::new(&bytes), 5),
        Ok(GgufValue::I32(-1))
    ));
    assert!(matches!(
        read_gguf_value(&mut Cursor::new(&bytes), 11),
        Ok(GgufValue::I64(-1))
    ));
    assert!(matches!(
        read_gguf_value(&mut Cursor::new(&bytes), 0),
        Ok(GgufValue::U8(255))
    ));
    assert!(matches!(
        read_gguf_value(&mut Cursor::new(&bytes), 2),
        Ok(GgufValue::U16(65535))
    ));
    assert!(matches!(
        read_gguf_value(&mut Cursor::new(&bytes), 10),
        Ok(GgufValue::U64(u64::MAX))
    ));
    assert!(matches!(
        read_gguf_value(&mut Cursor::new(&bytes), 7),
        Ok(GgufValue::Bool(true))
    ));
}

#[test]
fn a_double_keeps_its_bits() {
    let bytes = 2.5f64.to_le_bytes().to_vec();
    match read_gguf_value(&mut Cursor::new(&bytes), 12) {
        Ok(GgufValue::F64(v)) => assert_eq!(f64::from_bits(v), 2.5),
        _ => panic!("Expected F64"),
    }
}

#[test]
fn of_an_array_only_the_length_is_kept() {
    let mut stream = Vec::new();
    stream.extend_from_slice(&2u32.to_le_bytes());
    stream.extend_from_slice(&3u64.to_le_bytes());
    stream.extend_from_slice(&[7u8; 6]);
    let mut cursor = Cursor::new(&stream);
    match read_gguf_value(&mut cursor, 9) {
        Ok(GgufValue::ArrayLen(n)) => assert_eq!(n, 3),
        _ => panic!("Expected ArrayLen"),
    }
    assert_eq!(cursor.pos, 18);
}

#[test]
fn reading_and_skipping_end_at_the_same_place() {
    let mut text = 5u64.to_le_bytes().to_vec();
    text.extend_from_slice(b"hello");
    let mut read = Cursor::new(&text);
    let mut skip = Cursor::new(&text);
    assert!(read_gguf_value(&mut read, 8).is_ok());
    assert_eq!(skip_value(&mut skip, 8), Ok(()));
    assert_eq!(read.pos, skip.pos);
    let eight = vec![0u8; 8];
    for ty in [0u32, 1, 2, 3, 4, 5, 6, 7, 10, 11, 12] {
        let mut read = Cursor::new(&eight);
        let mut skip = Cursor::new(&eight);
        assert!(read_gguf_value(&mut read, ty).is_ok());
        assert_eq!(skip_value(&mut skip, ty), Ok(()));
        assert_eq!(read.pos, skip.pos);
    }
}

#[test]
fn skipping_may_pass_the_end_of_the_stream() {
    let bytes = vec![0u8; 2];
    let mut cursor = Cursor::new(&bytes);
    assert_eq!(skip_value(&mut cursor, 4), Ok(()));
    assert_eq!(cursor.pos, 4);
    assert_eq!(read_u32(&mut cursor), Err(GgufError::UnexpectedEnd));
}

#[test]
fn a_skipped_string_of_signed_length_goes_back() {
    // The length is -1: from behind the length word, one byte back.
    let bytes = u64::MAX.to_le_bytes().to_vec();
    let mut cursor = Cursor::new(&bytes);
    assert_eq!(skip_value(&mut cursor, 8), Ok(()));
    assert_eq!(cursor.pos, 7);
    // Two strings: the first leads back to the array, whose header then gives the
    // length of the second.
    let mut bytes = 8u32.to_le_bytes().to_vec();
    bytes.extend_from_slice(&2u64.to_le_bytes());
    bytes.extend_from_slice(&(-20i64).to_le_bytes());
    let mut cursor = Cursor::new(&bytes);
    assert_eq!(skip_value(&mut cursor, 9), Ok(()));
    assert_eq!(cursor.pos, 8 + 8 + (2 << 32));
}

#[test]
fn a_skip_cannot_lead_out_of_every_stream() {
    let bytes = i64::MIN.to_le_bytes().to_vec();
    let mut cursor = Cursor::new(&bytes);
    assert_eq!(skip_value(&mut cursor, 8), Err(GgufError::SeekOutOfRange));
    assert_eq!(cursor.pos, 0);
    let mut far = Cursor {
        data: &bytes,
        pos: u64::MAX,
    };
    assert_eq!(skip_value(&mut far, 0), Err(GgufError::SeekOutOfRange));
}

#[test]
fn an_array_that_leads_back_to_itself_is_refused() {
    // Two arrays: the first holds a string that leads back to the outer array.
    let mut bytes = 9u32.to_le_bytes().to_vec();
    bytes.extend_from_slice(&2u64.to_le_bytes());
    bytes.extend_from_slice(&8u32.to_le_bytes());
    bytes.extend_from_slice(&1u64.to_le_bytes());
    bytes.extend_from_slice(&(-32i64).to_le_bytes());
    let mut cursor = Cursor::new(&bytes);
    assert_eq!(skip_value(&mut cursor, 9), Err(GgufError::EndlessNesting));
    assert!(matches!(
        read_gguf_value(&mut cursor, 9),
        Err(GgufError::EndlessNesting)
    ));
    // With a single item it ends, back at the start.
    bytes[4] = 1;
    let mut cursor = Cursor::new(&bytes);
    assert_eq!(skip_value(&mut cursor, 9), Ok(()));
    assert_eq!(cursor.pos, 0);
}

#[test]
fn arrays_nest_as_deep_as_the_stream_is_long() {
    let mut bytes = Vec::new();
    for _ in 0..50 {
        bytes.extend_from_slice(&9u32.to_le_bytes());
        bytes.extend_from_slice(&1u64.to_le_bytes());
    }
    let mut cursor = Cursor::new(&bytes);
    assert_eq!(skip_value(&mut cursor, 9), Err(GgufError::UnexpectedEnd));
    bytes.extend_from_slice(&0u32.to_le_bytes());
    bytes.extend_from_slice(&0u64.to_le_bytes());
    let mut cursor = Cursor::new(&bytes);
    assert_eq!(skip_value(&mut cursor, 9), Ok(()));
    assert_eq!(cursor.pos, bytes.len() as u64);
}
