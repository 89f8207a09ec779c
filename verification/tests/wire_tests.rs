use xodium::{ByteReader, WriteBytesExt};

#[test]
fn test_write_fixed_width_integers() {
    let mut buf: Vec<u8> = Vec::new();
    buf.write_u8(0xAB);
    assert_eq!(buf, b"\xAB");

    let mut buf: Vec<u8> = Vec::new();
    buf.write_u16_be(0x0102);
    buf.write_u16_le(0x0304);
    assert_eq!(buf, b"\x01\x02\x04\x03");

    let mut buf: Vec<u8> = Vec::new();
    buf.write_u32_be(0x01020304);
    buf.write_u32_le(0x01020304);
    assert_eq!(buf, b"\x01\x02\x03\x04\x04\x03\x02\x01");

    let mut buf: Vec<u8> = Vec::new();
    buf.write_u64_be(0x0102030405060708);
    assert_eq!(buf, b"\x01\x02\x03\x04\x05\x06\x07\x08");

    let mut buf: Vec<u8> = Vec::new();
    buf.write_i8(-1);
    buf.write_i16_be(-2);
    buf.write_i32_be(-2);
    buf.write_i64_be(-2);
    assert_eq!(
        buf,
        b"\xFF\xFF\xFE\xFF\xFF\xFF\xFE\xFF\xFF\xFF\xFF\xFF\xFF\xFF\xFE"
    );
}

#[test]
fn test_native_order_writes_match_platform() {
    let mut ne: Vec<u8> = Vec::new();
    ne.write_u16_ne(0x0102);
    assert_eq!(ne, 0x0102u16.to_ne_bytes());
    let mut ne: Vec<u8> = Vec::new();
    ne.write_u32_ne(0x01020304);
    assert_eq!(ne, 0x01020304u32.to_ne_bytes());
}

#[test]
fn test_read_fixed_width_integers() {
    let mut r = ByteReader::new(b"\x01\x02\x03\x04".to_vec());
    assert_eq!(r.read_u16_be(), Some(0x0102));
    assert_eq!(r.read_u16_le(), Some(0x0403));
    assert_eq!(r.read_u8(), None);

    let mut r = ByteReader::new(b"\xFF\xFE\xFF\xFF\xFF\xFE".to_vec());
    assert_eq!(r.read_i16_be(), Some(-2));
    assert_eq!(r.read_i32_be(), Some(-2));

    let mut r = ByteReader::new(b"\x01\x02\x03\x04\x05\x06\x07\x08".to_vec());
    assert_eq!(r.read_u64_be(), Some(0x0102030405060708));

    let mut r = ByteReader::new(b"\x08\x07\x06\x05\x04\x03\x02\x01".to_vec());
    assert_eq!(r.read_u64_le(), Some(0x0102030405060708));
}

#[test]
fn test_short_reads_never_zero_fill() {
    // each operation consumes exactly its width or fails
    let mut r = ByteReader::new(b"\x01".to_vec());
    assert_eq!(r.read_u16_be(), None);
    assert_eq!(r.read_u8(), Some(0x01));
    assert_eq!(r.read_u8(), None);

    let mut r = ByteReader::new(b"\x01\x02\x03".to_vec());
    assert_eq!(r.read_u32_be(), None);
    assert_eq!(r.read_u64_be(), None);
    assert_eq!(r.read_u16_be(), Some(0x0102));
}
