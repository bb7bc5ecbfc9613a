use unreal_asset::cursor::Cursor;
use unreal_asset::error::{Error, InvalidFileError, IoError};
use unreal_asset::kismet::KismetExpression;
use unreal_asset::reader::asset_trait::AssetTrait;
use unreal_asset::reader::raw_reader::RawReader;
use unreal_asset::reader::raw_writer::RawWriter;
use unreal_asset::unreal_types::PackageIndex;

fn write(expression: &KismetExpression) -> (Vec<u8>, usize) {
    let mut writer = RawWriter::new(Cursor::new(Vec::new()), 513);
    let size = KismetExpression::write(expression, &mut writer).unwrap();
    (writer.into_cursor().into_inner(), size)
}

fn read(bytes: Vec<u8>) -> (Result<KismetExpression, Error>, u64) {
    let mut reader = RawReader::new(Cursor::new(bytes), 513);
    let result = KismetExpression::new(&mut reader);
    (result, reader.position())
}

#[test]
fn every_instruction_round_trips() {
    let all = vec![
        (KismetExpression::ExReturn(Box::new(KismetExpression::ExNothing)), vec![0x04, 0x0B], 2),
        (
            KismetExpression::ExJumpIfNot(0x0102_0304, Box::new(KismetExpression::ExTrue)),
            vec![0x07, 0x04, 0x03, 0x02, 0x01, 0x27],
            6,
        ),
        (
            KismetExpression::ExObjectConst(PackageIndex::new(-3)),
            vec![0x20, 0xFD, 0xFF, 0xFF, 0xFF],
            9,
        ),
        (KismetExpression::ExJump(7), vec![0x06, 7, 0, 0, 0], 5),
        (KismetExpression::ExIntConst(-1), vec![0x1D, 0xFF, 0xFF, 0xFF, 0xFF], 5),
        (KismetExpression::ExFloatConst(0x3F80_0000), vec![0x1E, 0x00, 0x00, 0x80, 0x3F], 5),
        (KismetExpression::ExByteConst(200), vec![0x24, 200], 2),
        (KismetExpression::ExIntConstByte(3), vec![0x2C, 3], 2),
        (
            KismetExpression::ExInt64Const(-2),
            vec![0x35, 0xFE, 0xFF, 0xFF, 0xFF, 0xFF, 0xFF, 0xFF, 0xFF],
            9,
        ),
        (KismetExpression::ExUInt64Const(1), vec![0x36, 1, 0, 0, 0, 0, 0, 0, 0], 9),
        (KismetExpression::ExNothing, vec![0x0B], 1),
        (KismetExpression::ExEndFunctionParms, vec![0x16], 1),
        (KismetExpression::ExSelf, vec![0x17], 1),
        (KismetExpression::ExIntZero, vec![0x25], 1),
        (KismetExpression::ExIntOne, vec![0x26], 1),
        (KismetExpression::ExTrue, vec![0x27], 1),
        (KismetExpression::ExFalse, vec![0x28], 1),
        (KismetExpression::ExNoObject, vec![0x2A], 1),
        (KismetExpression::ExEndOfScript, vec![0x53], 1),
    ];
    for (expression, bytes, size) in all {
        let (stored, reported) = write(&expression);
        assert_eq!(stored, bytes);
        assert_eq!(reported, size);
        let (back, end) = read(stored);
        assert_eq!(back, Ok(expression));
        assert_eq!(end, bytes.len() as u64);
    }
}

#[test]
fn nested_expressions_round_trip() {
    let expression = KismetExpression::ExReturn(Box::new(KismetExpression::ExJumpIfNot(
        12,
        Box::new(KismetExpression::ExReturn(Box::new(KismetExpression::ExObjectConst(
            PackageIndex::new(5),
        )))),
    )));
    let (bytes, size) = write(&expression);
    assert_eq!(bytes, vec![0x04, 0x07, 12, 0, 0, 0, 0x04, 0x20, 5, 0, 0, 0]);
    assert_eq!(size, 1 + 5 + 1 + 9);
    let (back, end) = read(bytes);
    assert_eq!(back, Ok(expression));
    assert_eq!(end, 12);
}

#[test]
fn unknown_instruction_is_refused() {
    let (back, _) = read(vec![0xEE, 0, 0]);
    assert_eq!(back, Err(Error::InvalidFile(InvalidFileError::UnknownOpcode(0xEE))));
    let (back, _) = read(vec![0x04, 0x04, 0x99]);
    assert_eq!(back, Err(Error::InvalidFile(InvalidFileError::UnknownOpcode(0x99))));
}

#[test]
fn truncated_expression_is_end_of_file() {
    let (back, _) = read(vec![]);
    assert_eq!(back, Err(Error::Io(IoError::UnexpectedEof)));
    let (back, _) = read(vec![0x1D, 1, 2]);
    assert_eq!(back, Err(Error::Io(IoError::UnexpectedEof)));
    let (back, _) = read(vec![0x04]);
    assert_eq!(back, Err(Error::Io(IoError::UnexpectedEof)));
}
