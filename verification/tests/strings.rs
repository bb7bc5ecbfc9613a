use unreal_asset::cursor::{Cursor, SeekFrom};
use unreal_asset::cursor_ext::CursorExt;
use unreal_asset::error::{Error, InvalidFileError, IoError};

fn written(text: Option<&str>) -> (Vec<u8>, usize) {
    let mut cursor = Cursor::new(Vec::new());
    let count = cursor.write_string(&text.map(|t| t.to_string())).unwrap();
    (cursor.into_inner(), count)
}

fn read(bytes: Vec<u8>) -> (Result<Option<String>, Error>, u64) {
    let mut cursor = Cursor::new(bytes);
    let result = cursor.read_string();
    (result, cursor.position())
}

#[test]
fn hello_is_stored_as_utf8_with_terminator() {
    let (bytes, count) = written(Some("Hello"));
    assert_eq!(bytes, vec![0x06, 0, 0, 0, 0x48, 0x65, 0x6C, 0x6C, 0x6F, 0x00]);
    assert_eq!(count, 6);
    let (text, end) = read(bytes);
    assert_eq!(text, Ok(Some("Hello".to_string())));
    assert_eq!(end, 10);
}

#[test]
fn text_outside_ascii_is_stored_as_utf16() {
    let (bytes, count) = written(Some("héllo"));
    assert_eq!(
        bytes,
        vec![
            0xFA, 0xFF, 0xFF, 0xFF, 0x68, 0x00, 0xE9, 0x00, 0x6C, 0x00, 0x6C, 0x00, 0x6F, 0x00,
            0x00, 0x00
        ]
    );
    assert_eq!(i32::from_le_bytes([bytes[0], bytes[1], bytes[2], bytes[3]]), -6);
    // twice the six UTF-8 bytes of the text, and two
    assert_eq!(count, 14);
    let (text, end) = read(bytes);
    assert_eq!(text, Ok(Some("héllo".to_string())));
    assert_eq!(end, 16);
}

#[test]
fn null_string_is_a_zero_length() {
    let (bytes, count) = written(None);
    assert_eq!(bytes, vec![0, 0, 0, 0]);
    assert_eq!(count, 4);
    let (text, end) = read(bytes);
    assert_eq!(text, Ok(None));
    assert_eq!(end, 4);
}

#[test]
fn length_one_is_the_empty_text_and_its_terminator() {
    let (text, end) = read(vec![1, 0, 0, 0, 0, 0x55]);
    assert_eq!(text, Ok(Some(String::new())));
    assert_eq!(end, 5);
    let (bytes, count) = written(Some(""));
    assert_eq!(bytes, vec![1, 0, 0, 0, 0]);
    assert_eq!(count, 1);
}

#[test]
fn terminator_is_skipped_even_behind_the_end() {
    let (text, end) = read(vec![2, 0, 0, 0, b'a']);
    assert_eq!(text, Ok(Some("a".to_string())));
    assert_eq!(end, 6);
}

#[test]
fn lengths_out_of_range_are_refused() {
    for len in [i32::MIN, 131073, -131073] {
        let mut bytes = len.to_le_bytes().to_vec();
        bytes.extend_from_slice(&[0u8; 16]);
        let (text, _) = read(bytes);
        assert_eq!(text, Err(Error::InvalidFile(InvalidFileError::StringLength(len))));
    }
}

#[test]
fn largest_lengths_are_accepted() {
    let mut bytes = 131072i32.to_le_bytes().to_vec();
    bytes.extend(std::iter::repeat(b'x').take(131071));
    bytes.push(0);
    let (text, end) = read(bytes);
    assert_eq!(text.unwrap().unwrap().len(), 131071);
    assert_eq!(end, 4 + 131072);

    let mut bytes = (-131072i32).to_le_bytes().to_vec();
    for _ in 0..131071 {
        bytes.extend_from_slice(&[0x41, 0x00]);
    }
    bytes.extend_from_slice(&[0, 0]);
    let (text, end) = read(bytes);
    assert_eq!(text.unwrap().unwrap().len(), 131071);
    assert_eq!(end, 4 + 2 * 131072);
}

#[test]
fn bytes_that_are_not_utf8_read_as_none() {
    let (text, end) = read(vec![3, 0, 0, 0, 0xFF, 0xFE, 0]);
    assert_eq!(text, Ok(Some("None".to_string())));
    assert_eq!(end, 7);
}

#[test]
fn units_that_are_not_utf16_are_refused() {
    // a lone high surrogate
    let (text, _) = read(vec![0xFE, 0xFF, 0xFF, 0xFF, 0x00, 0xD8, 0, 0]);
    assert_eq!(text, Err(Error::Utf16));
    // a low surrogate first
    let (text, _) = read(vec![0xFD, 0xFF, 0xFF, 0xFF, 0x00, 0xDC, 0x00, 0xD8, 0, 0]);
    assert_eq!(text, Err(Error::Utf16));
}

#[test]
fn surrogate_pairs_are_read_and_written() {
    let (bytes, _) = written(Some("a\u{1F600}"));
    assert_eq!(
        bytes,
        vec![0xFC, 0xFF, 0xFF, 0xFF, 0x61, 0x00, 0x3D, 0xD8, 0x00, 0xDE, 0x00, 0x00]
    );
    let (text, end) = read(bytes);
    assert_eq!(text, Ok(Some("a\u{1F600}".to_string())));
    assert_eq!(end, 12);
}

#[test]
fn string_round_trip_on_chosen_texts() {
    let texts = [
        None,
        Some(""),
        Some("a"),
        Some("Tab\there"),
        Some("Grüße"),
        Some("日本語"),
        Some("x\u{10FFFF}y"),
    ];
    for text in texts {
        let (bytes, _) = written(text);
        let len = bytes.len() as u64;
        let (back, end) = read(bytes);
        assert_eq!(back, Ok(text.map(|t| t.to_string())));
        assert_eq!(end, len);
    }
}

#[test]
fn short_payload_is_end_of_file() {
    let (text, _) = read(vec![5, 0, 0, 0, b'a', b'b']);
    assert_eq!(text, Err(Error::Io(IoError::UnexpectedEof)));
    let (text, _) = read(vec![0xFD, 0xFF, 0xFF, 0xFF, 0x41, 0x00]);
    assert_eq!(text, Err(Error::Io(IoError::UnexpectedEof)));
    let (text, end) = read(vec![5, 0]);
    assert_eq!(text, Err(Error::Io(IoError::UnexpectedEof)));
    assert_eq!(end, 0);
}

#[test]
fn truth_values_are_one_byte() {
    let mut cursor = Cursor::new(Vec::new());
    cursor.write_bool(true).unwrap();
    cursor.write_bool(false).unwrap();
    assert_eq!(cursor.get_ref(), &vec![1u8, 0u8]);
    let mut cursor = Cursor::new(vec![0, 1, 2, 0xFF]);
    assert_eq!(cursor.read_bool(), Ok(false));
    assert_eq!(cursor.read_bool(), Ok(true));
    assert_eq!(cursor.read_bool(), Ok(true));
    assert_eq!(cursor.read_bool(), Ok(true));
    assert_eq!(cursor.read_bool(), Err(Error::Io(IoError::UnexpectedEof)));
}

#[test]
fn string_is_written_at_the_position() {
    let mut cursor = Cursor::new(vec![9, 9, 9, 9, 9, 9, 9, 9, 9, 9]);
    cursor.seek(SeekFrom::Start(2)).unwrap();
    cursor.write_string(&Some("ab".to_string())).unwrap();
    assert_eq!(cursor.position(), 9);
    assert_eq!(cursor.into_inner(), vec![9, 9, 3, 0, 0, 0, b'a', b'b', 0, 9]);
}
