use binary_data::{BigEndian, ByteOrder, Error, LittleEndian};

#[test]
fn big_endian_decodes_each_width() {
    let bytes = [0x12u8, 0x34, 0x56, 0x78, 0x9a];
    assert_eq!(BigEndian::read_u16(&bytes), Ok(0x1234));
    assert_eq!(BigEndian::read_u24(&bytes), Ok(0x123456));
    assert_eq!(BigEndian::read_u32(&bytes), Ok(0x12345678));
}

#[test]
fn little_endian_decodes_each_width() {
    let bytes = [0x12u8, 0x34, 0x56, 0x78, 0x9a];
    assert_eq!(LittleEndian::read_u16(&bytes), Ok(0x3412));
    assert_eq!(LittleEndian::read_u24(&bytes), Ok(0x563412));
    assert_eq!(LittleEndian::read_u32(&bytes), Ok(0x78563412));
}

#[test]
fn short_slices_are_invalid_input() {
    assert_eq!(BigEndian::read_u16(&[1]), Err(Error::InvalidInputArray));
    assert_eq!(BigEndian::read_u24(&[1, 2]), Err(Error::InvalidInputArray));
    assert_eq!(BigEndian::read_u32(&[1, 2, 3]), Err(Error::InvalidInputArray));
    assert_eq!(LittleEndian::read_u16(&[]), Err(Error::InvalidInputArray));
    assert_eq!(LittleEndian::read_u24(&[1, 2]), Err(Error::InvalidInputArray));
    assert_eq!(LittleEndian::read_u32(&[1, 2, 3]), Err(Error::InvalidInputArray));
}

#[test]
fn encoders_lay_out_bytes() {
    assert_eq!(BigEndian::encode_u16(4112), [0x10, 0x10]);
    assert_eq!(BigEndian::encode_u24(1579032), [0x18, 0x18, 0x18]);
    assert_eq!(BigEndian::encode_u32(0x01020304), [1, 2, 3, 4]);
    assert_eq!(LittleEndian::encode_u16(0x0102), [2, 1]);
    assert_eq!(LittleEndian::encode_u24(0x010203), [3, 2, 1]);
    assert_eq!(LittleEndian::encode_u32(0x01020304), [4, 3, 2, 1]);
}

#[test]
fn u24_encoding_drops_the_high_byte() {
    assert_eq!(BigEndian::encode_u24(0xff010203), [1, 2, 3]);
    assert_eq!(LittleEndian::encode_u24(0xff010203), [3, 2, 1]);
}

#[test]
fn round_trip_on_edge_values() {
    for v in [0u16, 1, 0x00ff, 0x0100, 0x1234, u16::MAX] {
        assert_eq!(BigEndian::read_u16(&BigEndian::encode_u16(v)), Ok(v));
        assert_eq!(LittleEndian::read_u16(&LittleEndian::encode_u16(v)), Ok(v));
    }
    for v in [0u32, 1, 0xff, 0x123456, 0xffffff] {
        assert_eq!(BigEndian::read_u24(&BigEndian::encode_u24(v)), Ok(v));
        assert_eq!(LittleEndian::read_u24(&LittleEndian::encode_u24(v)), Ok(v));
    }
    for v in [0u32, 1, 0xff, 0x12345678, u32::MAX] {
        assert_eq!(BigEndian::read_u32(&BigEndian::encode_u32(v)), Ok(v));
        assert_eq!(LittleEndian::read_u32(&LittleEndian::encode_u32(v)), Ok(v));
    }
}

#[test]
fn u24_equals_zero_extended_u32() {
    let b = [0xab, 0xcd, 0xef];
    assert_eq!(BigEndian::read_u24(&b), BigEndian::read_u32(&[0, 0xab, 0xcd, 0xef]));
    assert_eq!(LittleEndian::read_u24(&b), LittleEndian::read_u32(&[0xab, 0xcd, 0xef, 0]));
}

#[test]
fn error_messages() {
    assert_eq!(Error::InvalidInputArray.message(), "conversion from array to slice fails");
    assert_eq!(Error::EndOfStream.message(), "end of stream");
    assert_eq!(Error::NotSupported.message(), "operation not supported");
    assert_eq!(Error::File.message(), "file operation failed");
}
