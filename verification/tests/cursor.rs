use unreal_asset::cursor::{Cursor, SeekFrom};
use unreal_asset::error::{Error, IoError};

#[test]
fn integers_are_little_endian() {
    let mut cursor = Cursor::new(Vec::new());
    cursor.write_u8(0x12).unwrap();
    cursor.write_i8(-2).unwrap();
    cursor.write_u16(0x1234).unwrap();
    cursor.write_i16(-2).unwrap();
    cursor.write_u32(0x1234_5678).unwrap();
    cursor.write_i32(-2).unwrap();
    cursor.write_u64(0x0102_0304_0506_0708).unwrap();
    cursor.write_i64(-2).unwrap();
    let bytes = cursor.into_inner();
    assert_eq!(
        bytes,
        vec![
            0x12, 0xFE, 0x34, 0x12, 0xFE, 0xFF, 0x78, 0x56, 0x34, 0x12, 0xFE, 0xFF, 0xFF, 0xFF,
            0x08, 0x07, 0x06, 0x05, 0x04, 0x03, 0x02, 0x01, 0xFE, 0xFF, 0xFF, 0xFF, 0xFF, 0xFF,
            0xFF, 0xFF
        ]
    );
    let mut cursor = Cursor::new(bytes);
    assert_eq!(cursor.read_u8(), Ok(0x12));
    assert_eq!(cursor.read_i8(), Ok(-2));
    assert_eq!(cursor.read_u16(), Ok(0x1234));
    assert_eq!(cursor.read_i16(), Ok(-2));
    assert_eq!(cursor.read_u32(), Ok(0x1234_5678));
    assert_eq!(cursor.read_i32(), Ok(-2));
    assert_eq!(cursor.read_u64(), Ok(0x0102_0304_0506_0708));
    assert_eq!(cursor.read_i64(), Ok(-2));
    assert_eq!(cursor.position(), 30);
}

#[test]
fn extreme_integers_round_trip() {
    let mut cursor = Cursor::new(Vec::new());
    cursor.write_i8(i8::MIN).unwrap();
    cursor.write_i16(i16::MIN).unwrap();
    cursor.write_i32(i32::MIN).unwrap();
    cursor.write_i64(i64::MIN).unwrap();
    cursor.write_u16(u16::MAX).unwrap();
    cursor.write_u32(u32::MAX).unwrap();
    cursor.write_u64(u64::MAX).unwrap();
    cursor.set_position(0);
    assert_eq!(cursor.read_i8(), Ok(i8::MIN));
    assert_eq!(cursor.read_i16(), Ok(i16::MIN));
    assert_eq!(cursor.read_i32(), Ok(i32::MIN));
    assert_eq!(cursor.read_i64(), Ok(i64::MIN));
    assert_eq!(cursor.read_u16(), Ok(u16::MAX));
    assert_eq!(cursor.read_u32(), Ok(u32::MAX));
    assert_eq!(cursor.read_u64(), Ok(u64::MAX));
}

#[test]
fn failed_read_leaves_the_position() {
    let mut cursor = Cursor::new(vec![1, 2, 3]);
    assert_eq!(cursor.read_u32(), Err(Error::Io(IoError::UnexpectedEof)));
    assert_eq!(cursor.position(), 0);
    assert_eq!(cursor.read_exact(4), Err(Error::Io(IoError::UnexpectedEof)));
    assert_eq!(cursor.position(), 0);
    assert_eq!(cursor.read_exact(3), Ok(vec![1, 2, 3]));
    assert_eq!(cursor.position(), 3);
    assert_eq!(cursor.read_exact(0), Ok(vec![]));
    assert_eq!(cursor.read_u8(), Err(Error::Io(IoError::UnexpectedEof)));
    cursor.set_position(100);
    assert_eq!(cursor.read_u8(), Err(Error::Io(IoError::UnexpectedEof)));
    assert_eq!(cursor.position(), 100);
}

#[test]
fn seek_moves_from_start_end_and_position() {
    let mut cursor = Cursor::new(vec![0; 10]);
    assert_eq!(cursor.seek(SeekFrom::Start(4)), Ok(4));
    assert_eq!(cursor.seek(SeekFrom::Current(3)), Ok(7));
    assert_eq!(cursor.seek(SeekFrom::Current(-7)), Ok(0));
    assert_eq!(cursor.seek(SeekFrom::End(-1)), Ok(9));
    assert_eq!(cursor.seek(SeekFrom::End(5)), Ok(15));
    assert_eq!(cursor.position(), 15);
    assert_eq!(cursor.seek(SeekFrom::Current(-16)), Err(Error::Io(IoError::InvalidInput)));
    assert_eq!(cursor.position(), 15);
    assert_eq!(cursor.seek(SeekFrom::End(-11)), Err(Error::Io(IoError::InvalidInput)));
    cursor.set_position(u64::MAX);
    assert_eq!(cursor.seek(SeekFrom::Current(1)), Err(Error::Io(IoError::InvalidInput)));
    assert_eq!(cursor.position(), u64::MAX);
}

#[test]
fn write_replaces_and_extends() {
    let mut cursor = Cursor::new(vec![1, 2, 3, 4]);
    cursor.set_position(2);
    cursor.write_all(&[9, 8, 7]).unwrap();
    assert_eq!(cursor.position(), 5);
    assert_eq!(cursor.get_ref(), &vec![1, 2, 9, 8, 7]);
    cursor.set_position(0);
    cursor.write_all(&[5]).unwrap();
    assert_eq!(cursor.get_ref(), &vec![5, 2, 9, 8, 7]);
}

#[test]
fn write_behind_the_end_pads_with_zeros() {
    let mut cursor = Cursor::new(vec![1]);
    cursor.set_position(3);
    cursor.write_all(&[]).unwrap();
    assert_eq!(cursor.get_ref(), &vec![1]);
    cursor.write_u8(7).unwrap();
    assert_eq!(cursor.get_ref(), &vec![1, 0, 0, 7]);
    assert_eq!(cursor.position(), 4);
}

#[test]
fn write_that_cannot_be_addressed_is_refused() {
    let mut cursor = Cursor::new(vec![1]);
    cursor.set_position(u64::MAX - 1);
    assert_eq!(cursor.write_u32(1), Err(Error::Io(IoError::InvalidInput)));
    assert_eq!(cursor.position(), u64::MAX - 1);
    assert_eq!(cursor.get_ref(), &vec![1]);
    assert_eq!(cursor.write_all(&[]), Ok(()));
}
