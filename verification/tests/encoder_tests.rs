use sexp_wasm::encoder::{encode_leb128, encode_s_leb128, encode_string};

#[test]
fn test_signed() {
    let mut buf = Vec::new();
    encode_leb128(&mut buf, 0u8 as u64);
    assert_eq!(buf, vec![0x00]);

    buf.clear();
    encode_leb128(&mut buf, 1u32 as u64);
    assert_eq!(buf, vec![0x01]);

    buf.clear();
    encode_leb128(&mut buf, 63u64);
    assert_eq!(buf, vec![0x3f]);

    buf.clear();
    encode_s_leb128(&mut buf, 64u8 as i64);
    assert_eq!(buf, vec![0xc0, 0x00]);

    buf.clear();
    encode_s_leb128(&mut buf, 8191u32 as i64);
    assert_eq!(buf, vec![0xff, 0x3f]);

    buf.clear();
    encode_s_leb128(&mut buf, 8192u32 as i64);
    assert_eq!(buf, vec![0x80, 0xc0, 0x00]);
}

#[test]
fn test_unsigned() {
    let mut buf = Vec::new();
    encode_leb128(&mut buf, 0u8 as u64);
    assert_eq!(buf, vec![0x00]);

    buf.clear();
    encode_leb128(&mut buf, 1u32 as u64);
    assert_eq!(buf, vec![0x01]);

    buf.clear();
    encode_leb128(&mut buf, 63u64);
    assert_eq!(buf, vec![0x3f]);

    buf.clear();
    encode_leb128(&mut buf, 64u8 as u64);
    assert_eq!(buf, vec![0x40]);

    buf.clear();
    encode_leb128(&mut buf, 8191u32 as u64);
    assert_eq!(buf, vec![0xff, 0x3f]);

    buf.clear();
    encode_leb128(&mut buf, 8192u32 as u64);
    assert_eq!(buf, vec![0x80, 0x40]);
}

#[test]
fn test_string() {
    let mut buf = Vec::new();
    encode_string(&mut buf, "");
    assert_eq!(buf, vec![0x00]);

    buf.clear();
    encode_string(&mut buf, "abc");
    assert_eq!(buf, vec![0x03, 0x61, 0x62, 0x63]);
}

#[test]
fn test_unsigned_round_trip_with_standard_decoder() {
    for value in [0u64, 63, 64, 8191, 8192, u32::MAX as u64] {
        let mut buf = Vec::new();
        encode_leb128(&mut buf, value);
        let mut reader = &buf[..];
        let decoded = leb128::read::unsigned(&mut reader).unwrap();
        assert_eq!(decoded, value);
        assert!(reader.is_empty());
    }
}

#[test]
fn test_signed_round_trip_with_standard_decoder() {
    for value in [0i64, 1, -1, -64, -65, 127, 8191, -8192, i32::MIN as i64, i32::MAX as i64] {
        let mut buf = Vec::new();
        encode_s_leb128(&mut buf, value);
        let mut reader = &buf[..];
        let decoded = leb128::read::signed(&mut reader).unwrap();
        assert_eq!(decoded, value);
        assert!(reader.is_empty());
    }
}

#[test]
fn test_signed_negative_encodings() {
    let mut buf = Vec::new();
    encode_s_leb128(&mut buf, -1);
    assert_eq!(buf, vec![0x7f]);

    buf.clear();
    encode_s_leb128(&mut buf, -64);
    assert_eq!(buf, vec![0x40]);

    buf.clear();
    encode_s_leb128(&mut buf, -65);
    assert_eq!(buf, vec![0xbf, 0x7f]);

    buf.clear();
    encode_s_leb128(&mut buf, 127);
    assert_eq!(buf, vec![0xff, 0x00]);
}
