use binary_data::{
    BigEndian, BinMemoryBuffer, BinSeek, ByteRead, ByteWrite, Error, LittleEndian, ReadBytes,
    WriteBytes,
};

#[test]
fn read_scenario() {
    let mut mem_buff = BinMemoryBuffer::from(vec![1, 2, 3, 4, 5]);
    assert_eq!(mem_buff.read_u16::<BigEndian>(), Ok(0x0102));
    assert!(!mem_buff.is_eof());
    assert_eq!(mem_buff.read_into_vec(3), Ok(vec![3, 4, 5]));
    assert!(mem_buff.is_eof());
}

#[test]
fn write_scenario() {
    let mut mem_buff = BinMemoryBuffer::new();
    assert_eq!(mem_buff.write_u16::<BigEndian>(4112), Ok(()));
    assert_eq!(mem_buff.seek(0), Ok(0));
    assert_eq!(mem_buff.remaining_slice(), &[0x10, 0x10]);
    assert_eq!(mem_buff.seek(2), Ok(2));
    assert_eq!(mem_buff.write_u8(8), Ok(()));
    assert_eq!(mem_buff.write_u24::<BigEndian>(1579032), Ok(()));
    assert_eq!(mem_buff.write_u32::<BigEndian>(538976288), Ok(()));
    assert_eq!(mem_buff.len(), Ok(10));
    assert_eq!(mem_buff.seek(0), Ok(0));
    assert_eq!(
        mem_buff.remaining_slice(),
        &[0x10, 0x10, 0x08, 0x18, 0x18, 0x18, 0x20, 0x20, 0x20, 0x20]
    );
}

#[test]
fn little_endian_reads_and_writes() {
    let mut mem_buff = BinMemoryBuffer::new();
    assert_eq!(mem_buff.write_u32::<LittleEndian>(0x01020304), Ok(()));
    assert_eq!(mem_buff.write_u24::<LittleEndian>(0x050607), Ok(()));
    assert_eq!(mem_buff.seek(0), Ok(0));
    assert_eq!(mem_buff.remaining_slice(), &[4, 3, 2, 1, 7, 6, 5]);
    assert_eq!(mem_buff.read_u32::<LittleEndian>(), Ok(0x01020304));
    assert_eq!(mem_buff.read_u24::<LittleEndian>(), Ok(0x050607));
}

#[test]
fn appending_grows_by_exactly_the_written_bytes() {
    let mut mem_buff = BinMemoryBuffer::from(vec![9, 8, 7]);
    assert_eq!(mem_buff.seek(3), Ok(3));
    assert_eq!(mem_buff.write(&[1, 2, 3, 4]), Ok(4));
    assert_eq!(mem_buff.len(), Ok(7));
    assert_eq!(mem_buff.pos(), Ok(7));
    assert_eq!(mem_buff.seek(0), Ok(0));
    assert_eq!(mem_buff.remaining_slice(), &[9, 8, 7, 1, 2, 3, 4]);
}

#[test]
fn overwriting_inside_keeps_the_length() {
    let mut mem_buff = BinMemoryBuffer::from(vec![1, 2, 3, 4, 5]);
    assert_eq!(mem_buff.seek(1), Ok(1));
    assert_eq!(mem_buff.write_all(&[9, 9]), Ok(()));
    assert_eq!(mem_buff.len(), Ok(5));
    assert_eq!(mem_buff.pos(), Ok(3));
    assert_eq!(mem_buff.seek(0), Ok(0));
    assert_eq!(mem_buff.remaining_slice(), &[1, 9, 9, 4, 5]);
}

#[test]
fn write_past_the_end_fills_the_gap_with_zeros() {
    let mut mem_buff = BinMemoryBuffer::from(vec![1, 2]);
    assert_eq!(mem_buff.seek(4), Ok(4));
    assert_eq!(mem_buff.write(&[7]), Ok(1));
    assert_eq!(mem_buff.seek(0), Ok(0));
    assert_eq!(mem_buff.remaining_slice(), &[1, 2, 0, 0, 7]);
}

#[test]
fn write_beyond_the_largest_offset_fails() {
    let mut mem_buff = BinMemoryBuffer::new();
    assert_eq!(mem_buff.seek(usize::MAX), Ok(usize::MAX));
    assert_eq!(mem_buff.write(&[1]), Err(Error::NotSupported));
    assert_eq!(mem_buff.write_u8(1), Err(Error::NotSupported));
    assert_eq!(mem_buff.len(), Ok(0));
}

#[test]
fn reads_within_bounds_advance_exactly() {
    let mut mem_buff = BinMemoryBuffer::from(vec![1, 2, 3, 4, 5]);
    let mut buf = [0u8; 3];
    assert_eq!(mem_buff.read_exact(&mut buf), Ok(()));
    assert_eq!(buf, [1, 2, 3]);
    assert_eq!(mem_buff.pos(), Ok(3));
    assert_eq!(mem_buff.read_bytes::<2>(), Ok([4, 5]));
    assert_eq!(mem_buff.pos(), Ok(5));
}

#[test]
fn reading_past_the_end() {
    let mut mem_buff = BinMemoryBuffer::from(vec![1, 2, 3]);
    assert_eq!(mem_buff.seek(1), Ok(1));
    let mut buf = [0u8; 4];
    assert_eq!(mem_buff.read_exact(&mut buf), Err(Error::EndOfStream));
    assert_eq!(mem_buff.pos(), Ok(1));
    assert_eq!(mem_buff.read(&mut buf), Ok(2));
    assert_eq!(buf, [2, 3, 0, 0]);
    assert_eq!(mem_buff.pos(), Ok(3));
    assert_eq!(mem_buff.read(&mut buf), Ok(0));
    assert_eq!(mem_buff.read_u8(), Err(Error::EndOfStream));
    assert_eq!(mem_buff.read_u32::<BigEndian>(), Err(Error::EndOfStream));
    assert_eq!(mem_buff.read_into_vec(1), Err(Error::EndOfStream));
}

#[test]
fn seek_past_the_end_reads_nothing() {
    let mut mem_buff = BinMemoryBuffer::from(vec![1, 2, 3]);
    assert_eq!(mem_buff.seek(10), Ok(10));
    assert!(mem_buff.is_eof());
    assert_eq!(mem_buff.remaining_slice(), &[] as &[u8]);
    let mut buf = [5u8; 2];
    assert_eq!(mem_buff.read(&mut buf), Ok(0));
    assert_eq!(buf, [5, 5]);
    assert_eq!(mem_buff.read_u16::<BigEndian>(), Err(Error::EndOfStream));
    assert_eq!(mem_buff.read_into_vec(0), Ok(vec![]));
}

#[test]
fn empty_buffer() {
    let mut mem_buff = BinMemoryBuffer::default();
    assert!(mem_buff.is_empty());
    assert!(mem_buff.is_eof());
    assert_eq!(mem_buff.len(), Ok(0));
    assert_eq!(mem_buff.flush(), Ok(()));
    assert!(!BinMemoryBuffer::from(vec![0]).is_empty());
}

#[test]
fn remaining_slice_follows_the_cursor() {
    let mut mem_buff = BinMemoryBuffer::from(vec![1, 2, 3, 4]);
    assert_eq!(mem_buff.read_u8(), Ok(1));
    assert_eq!(mem_buff.remaining_slice(), &[2, 3, 4]);
}

#[test]
fn built_from_a_slice() {
    let bytes = [7u8, 8, 9];
    let mut mem_buff = BinMemoryBuffer::from(&bytes[..]);
    assert_eq!(mem_buff.pos(), Ok(0));
    assert_eq!(mem_buff.len(), Ok(3));
    assert_eq!(mem_buff.read_u24::<BigEndian>(), Ok(0x070809));
}
