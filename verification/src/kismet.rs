//! The bytecode of the visual scripting language, as a tree of expressions.
//!
//! An expression is stored as one byte that names its instruction, followed
//! by what the instruction takes. In memory an expression takes a number of
//! bytes of its own, which differs from the number on disk where it holds a
//! link to an object: four bytes on disk, eight in memory.

use crate::error::{Error, InvalidFileError};
use crate::le::{enc_i32, enc_i64, enc_u32, enc_u64, enc_u8, lemma_enc_dec};
use crate::reader::asset_reader::AssetReader;
use crate::reader::asset_writer::AssetWriter;
use crate::stream::{
    emitted, fits, has_at, lemma_emit, lemma_emit_part, lemma_has_at_concat, parse_i32, parse_i64,
    parse_u32, parse_u64, parse_u8, yields, Parsed,
};
use crate::unreal_types::PackageIndex;
use vstd::prelude::*;

verus! {

/// An expression of the bytecode.
#[derive(Debug, PartialEq, Eq)]
pub enum KismetExpression {
    /// Returns the value of an expression from the function.
    ExReturn(Box<KismetExpression>),
    /// Continues at a place in the code where an expression is false.
    ExJumpIfNot(u32, Box<KismetExpression>),
    /// The link to an object.
    ExObjectConst(PackageIndex),
    /// Continues at a place in the code.
    ExJump(u32),
    /// A 32-bit integer.
    ExIntConst(i32),
    /// A single-precision number, held as its bit pattern.
    ExFloatConst(u32),
    /// A byte.
    ExByteConst(u8),
    /// An integer that fits in a byte.
    ExIntConstByte(u8),
    /// A 64-bit signed integer.
    ExInt64Const(i64),
    /// A 64-bit unsigned integer.
    ExUInt64Const(u64),
    /// Does nothing.
    ExNothing,
    /// Ends the arguments of a call.
    ExEndFunctionParms,
    /// The object whose code runs.
    ExSelf,
    /// The integer zero.
    ExIntZero,
    /// The integer one.
    ExIntOne,
    /// The truth value true.
    ExTrue,
    /// The truth value false.
    ExFalse,
    /// The link to no object.
    ExNoObject,
    /// Ends the code.
    ExEndOfScript,
}

impl KismetExpression {
    /// The byte that names the instruction of the expression.
    pub open spec fn token(self) -> u8 {
        match self {
            KismetExpression::ExReturn(_) => 0x04,
            KismetExpression::ExJumpIfNot(_, _) => 0x07,
            KismetExpression::ExObjectConst(_) => 0x20,
            KismetExpression::ExJump(_) => 0x06,
            KismetExpression::ExIntConst(_) => 0x1d,
            KismetExpression::ExFloatConst(_) => 0x1e,
            KismetExpression::ExByteConst(_) => 0x24,
            KismetExpression::ExIntConstByte(_) => 0x2c,
            KismetExpression::ExInt64Const(_) => 0x35,
            KismetExpression::ExUInt64Const(_) => 0x36,
            KismetExpression::ExNothing => 0x0b,
            KismetExpression::ExEndFunctionParms => 0x16,
            KismetExpression::ExSelf => 0x17,
            KismetExpression::ExIntZero => 0x25,
            KismetExpression::ExIntOne => 0x26,
            KismetExpression::ExTrue => 0x27,
            KismetExpression::ExFalse => 0x28,
            KismetExpression::ExNoObject => 0x2a,
            KismetExpression::ExEndOfScript => 0x53,
        }
    }
}

/// The expression at `pos`.
pub open spec fn parse_expression(bytes: Seq<u8>, pos: u64) -> Parsed<KismetExpression>
    decreases u64::MAX - pos,
{
    match parse_u8(bytes, pos) {
        Err(e) => Err(e),
        Ok((token, p)) => if p <= pos {
            Err(Error::eof())
        } else if token == 0x04 {
            match parse_expression(bytes, p) {
                Err(e) => Err(e),
                Ok((inner, q)) => Ok((KismetExpression::ExReturn(Box::new(inner)), q)),
            }
        } else if token == 0x07 {
            match parse_u32(bytes, p) {
                Err(e) => Err(e),
                Ok((target, p2)) => if p2 <= pos {
                    Err(Error::eof())
                } else {
                    match parse_expression(bytes, p2) {
                        Err(e) => Err(e),
                        Ok((inner, q)) => Ok(
                            (KismetExpression::ExJumpIfNot(target, Box::new(inner)), q),
                        ),
                    }
                },
            }
        } else if token == 0x20 {
            match parse_i32(bytes, p) {
                Err(e) => Err(e),
                Ok((index, q)) => Ok((KismetExpression::ExObjectConst(PackageIndex { index }), q)),
            }
        } else if token == 0x06 {
            match parse_u32(bytes, p) {
                Err(e) => Err(e),
                Ok((v, q)) => Ok((KismetExpression::ExJump(v), q)),
            }
        } else if token == 0x1d {
            match parse_i32(bytes, p) {
                Err(e) => Err(e),
                Ok((v, q)) => Ok((KismetExpression::ExIntConst(v), q)),
            }
        } else if token == 0x1e {
            match parse_u32(bytes, p) {
                Err(e) => Err(e),
                Ok((v, q)) => Ok((KismetExpression::ExFloatConst(v), q)),
            }
        } else if token == 0x24 {
            match parse_u8(bytes, p) {
                Err(e) => Err(e),
                Ok((v, q)) => Ok((KismetExpression::ExByteConst(v), q)),
            }
        } else if token == 0x2c {
            match parse_u8(bytes, p) {
                Err(e) => Err(e),
                Ok((v, q)) => Ok((KismetExpression::ExIntConstByte(v), q)),
            }
        } else if token == 0x35 {
            match parse_i64(bytes, p) {
                Err(e) => Err(e),
                Ok((v, q)) => Ok((KismetExpression::ExInt64Const(v), q)),
            }
        } else if token == 0x36 {
            match parse_u64(bytes, p) {
                Err(e) => Err(e),
                Ok((v, q)) => Ok((KismetExpression::ExUInt64Const(v), q)),
            }
        } else if token == 0x0b {
            Ok((KismetExpression::ExNothing, p))
        } else if token == 0x16 {
            Ok((KismetExpression::ExEndFunctionParms, p))
        } else if token == 0x17 {
            Ok((KismetExpression::ExSelf, p))
        } else if token == 0x25 {
            Ok((KismetExpression::ExIntZero, p))
        } else if token == 0x26 {
            Ok((KismetExpression::ExIntOne, p))
        } else if token == 0x27 {
            Ok((KismetExpression::ExTrue, p))
        } else if token == 0x28 {
            Ok((KismetExpression::ExFalse, p))
        } else if token == 0x2a {
            Ok((KismetExpression::ExNoObject, p))
        } else if token == 0x53 {
            Ok((KismetExpression::ExEndOfScript, p))
        } else {
            Err(Error::InvalidFile(InvalidFileError::UnknownOpcode(token)))
        },
    }
}

/// The bytes of an expression on disk.
pub open spec fn ser_expression(e: KismetExpression) -> Seq<u8>
    decreases e,
{
    match e {
        KismetExpression::ExReturn(inner) => enc_u8(0x04) + ser_expression(*inner),
        KismetExpression::ExJumpIfNot(target, inner) => enc_u8(0x07) + enc_u32(target)
            + ser_expression(*inner),
        KismetExpression::ExObjectConst(link) => enc_u8(0x20) + enc_i32(link.index),
        KismetExpression::ExJump(v) => enc_u8(0x06) + enc_u32(v),
        KismetExpression::ExIntConst(v) => enc_u8(0x1d) + enc_i32(v),
        KismetExpression::ExFloatConst(v) => enc_u8(0x1e) + enc_u32(v),
        KismetExpression::ExByteConst(v) => enc_u8(0x24) + enc_u8(v),
        KismetExpression::ExIntConstByte(v) => enc_u8(0x2c) + enc_u8(v),
        KismetExpression::ExInt64Const(v) => enc_u8(0x35) + enc_i64(v),
        KismetExpression::ExUInt64Const(v) => enc_u8(0x36) + enc_u64(v),
        KismetExpression::ExNothing => enc_u8(0x0b),
        KismetExpression::ExEndFunctionParms => enc_u8(0x16),
        KismetExpression::ExSelf => enc_u8(0x17),
        KismetExpression::ExIntZero => enc_u8(0x25),
        KismetExpression::ExIntOne => enc_u8(0x26),
        KismetExpression::ExTrue => enc_u8(0x27),
        KismetExpression::ExFalse => enc_u8(0x28),
        KismetExpression::ExNoObject => enc_u8(0x2a),
        KismetExpression::ExEndOfScript => enc_u8(0x53),
    }
}

/// The number of bytes that an expression takes in memory.
pub open spec fn code_size(e: KismetExpression) -> nat
    decreases e,
{
    match e {
        KismetExpression::ExReturn(inner) => 1 + code_size(*inner),
        KismetExpression::ExJumpIfNot(_, inner) => 5 + code_size(*inner),
        KismetExpression::ExObjectConst(_) => 9,
        KismetExpression::ExJump(_) => 5,
        KismetExpression::ExIntConst(_) => 5,
        KismetExpression::ExFloatConst(_) => 5,
        KismetExpression::ExByteConst(_) => 2,
        KismetExpression::ExIntConstByte(_) => 2,
        KismetExpression::ExInt64Const(_) => 9,
        KismetExpression::ExUInt64Const(_) => 9,
        KismetExpression::ExNothing => 1,
        KismetExpression::ExEndFunctionParms => 1,
        KismetExpression::ExSelf => 1,
        KismetExpression::ExIntZero => 1,
        KismetExpression::ExIntOne => 1,
        KismetExpression::ExTrue => 1,
        KismetExpression::ExFalse => 1,
        KismetExpression::ExNoObject => 1,
        KismetExpression::ExEndOfScript => 1,
    }
}

/// An expression takes at least one byte on disk, and in memory at most
/// twice what it takes on disk.
pub proof fn lemma_code_size_bound(e: KismetExpression)
    ensures
        ser_expression(e).len() >= 1,
        code_size(e) >= 1,
        code_size(e) <= 2 * ser_expression(e).len(),
    decreases e,
{
    lemma_enc_dec();
    match e {
        KismetExpression::ExReturn(inner) => {
            lemma_code_size_bound(*inner);
        },
        KismetExpression::ExJumpIfNot(_, inner) => {
            lemma_code_size_bound(*inner);
        },
        _ => {},
    }
}

impl KismetExpression {
    /// Reads an expression.
    pub fn new<Reader: AssetReader>(asset: &mut Reader) -> (r: Result<KismetExpression, Error>)
        ensures
            final(asset).bytes() == old(asset).bytes(),
            final(asset).env() == old(asset).env(),
            yields(r, final(asset).pos(), parse_expression(old(asset).bytes(), old(asset).pos())),
        decreases u64::MAX - old(asset).pos(),
    {
        proof {
            asset.lemma_bounded();
        }
        let token = match asset.read_u8() {
            Ok(token) => token,
            Err(e) => return Err(e),
        };
        if token == 0x04 {
            match KismetExpression::new(asset) {
                Ok(inner) => Ok(KismetExpression::ExReturn(Box::new(inner))),
                Err(e) => Err(e),
            }
        } else if token == 0x07 {
            let target = match asset.read_u32() {
                Ok(v) => v,
                Err(e) => return Err(e),
            };
            match KismetExpression::new(asset) {
                Ok(inner) => Ok(KismetExpression::ExJumpIfNot(target, Box::new(inner))),
                Err(e) => Err(e),
            }
        } else if token == 0x20 {
            match asset.read_i32() {
                Ok(index) => Ok(KismetExpression::ExObjectConst(PackageIndex::new(index))),
                Err(e) => Err(e),
            }
        } else if token == 0x06 {
            match asset.read_u32() {
                Ok(v) => Ok(KismetExpression::ExJump(v)),
                Err(e) => Err(e),
            }
        } else if token == 0x1d {
            match asset.read_i32() {
                Ok(v) => Ok(KismetExpression::ExIntConst(v)),
                Err(e) => Err(e),
            }
        } else if token == 0x1e {
            match asset.read_u32() {
                Ok(v) => Ok(KismetExpression::ExFloatConst(v)),
                Err(e) => Err(e),
            }
        } else if token == 0x24 {
            match asset.read_u8() {
                Ok(v) => Ok(KismetExpression::ExByteConst(v)),
                Err(e) => Err(e),
            }
        } else if token == 0x2c {
            match asset.read_u8() {
                Ok(v) => Ok(KismetExpression::ExIntConstByte(v)),
                Err(e) => Err(e),
            }
        } else if token == 0x35 {
            match asset.read_i64() {
                Ok(v) => Ok(KismetExpression::ExInt64Const(v)),
                Err(e) => Err(e),
            }
        } else if token == 0x36 {
            match asset.read_u64() {
                Ok(v) => Ok(KismetExpression::ExUInt64Const(v)),
                Err(e) => Err(e),
            }
        } else if token == 0x0b {
            Ok(KismetExpression::ExNothing)
        } else if token == 0x16 {
            Ok(KismetExpression::ExEndFunctionParms)
        } else if token == 0x17 {
            Ok(KismetExpression::ExSelf)
        } else if token == 0x25 {
            Ok(KismetExpression::ExIntZero)
        } else if token == 0x26 {
            Ok(KismetExpression::ExIntOne)
        } else if token == 0x27 {
            Ok(KismetExpression::ExTrue)
        } else if token == 0x28 {
            Ok(KismetExpression::ExFalse)
        } else if token == 0x2a {
            Ok(KismetExpression::ExNoObject)
        } else if token == 0x53 {
            Ok(KismetExpression::ExEndOfScript)
        } else {
            Err(Error::InvalidFile(InvalidFileError::UnknownOpcode(token)))
        }
    }

    /// Writes the byte that names an instruction.
    fn write_token<Writer: AssetWriter>(asset: &mut Writer, token: u8) -> (r: Result<(), Error>)
        ensures
            final(asset).env() == old(asset).env(),
            crate::stream::wrote(
                r,
                old(asset).bytes(),
                old(asset).pos(),
                final(asset).bytes(),
                final(asset).pos(),
                enc_u8(token),
            ),
    {
        asset.write_u8(token)
    }

    /// Writes an expression and reports the number of bytes that it takes
    /// in memory.
    pub fn write_sized<Writer: AssetWriter>(
        expression: &KismetExpression,
        asset: &mut Writer,
    ) -> (r: Result<u128, Error>)
        ensures
            final(asset).env() == old(asset).env(),
            r matches Ok(n) ==> n == code_size(*expression),
            emitted(
                match r {
                    Ok(_) => Ok::<(), Error>(()),
                    Err(e) => Err::<(), Error>(e),
                },
                (),
                old(asset).bytes(),
                old(asset).pos(),
                final(asset).bytes(),
                final(asset).pos(),
                ser_expression(*expression),
            ),
        decreases *expression,
    {
        let ghost origin = asset.bytes();
        let ghost start = asset.pos();
        let ghost none = Seq::<u8>::empty();
        let ghost mut done = none;
        proof {
            lemma_enc_dec();
            lemma_code_size_bound(*expression);
        }
        match expression {
            KismetExpression::ExReturn(inner) => {
                let one = KismetExpression::write_token(asset, 0x04);
                proof {
                    lemma_emit(
                        one,
                        origin,
                        start,
                        none,
                        enc_u8(0x04),
                        origin,
                        start,
                        asset.bytes(),
                        asset.pos(),
                    );
                    assert(none + enc_u8(0x04) =~= enc_u8(0x04));
                    lemma_code_size_bound(**inner);
                }
                if let Err(e) = one {
                    return Err(e);
                }
                let ghost b = asset.bytes();
                let ghost p = asset.pos();
                let two = KismetExpression::write_sized(inner, asset);
                proof {
                    lemma_emit_part(
                        match two {
                            Ok(_) => Ok::<(), Error>(()),
                            Err(e) => Err::<(), Error>(e),
                        },
                        (),
                        origin,
                        start,
                        enc_u8(0x04),
                        ser_expression(**inner),
                        b,
                        p,
                        asset.bytes(),
                        asset.pos(),
                    );
                }
                match two {
                    Ok(n) => Ok(1 + n),
                    Err(e) => Err(e),
                }
            },
            KismetExpression::ExJumpIfNot(target, inner) => {
                let one = KismetExpression::write_token(asset, 0x07);
                proof {
                    lemma_emit(
                        one,
                        origin,
                        start,
                        none,
                        enc_u8(0x07),
                        origin,
                        start,
                        asset.bytes(),
                        asset.pos(),
                    );
                    assert(none + enc_u8(0x07) =~= enc_u8(0x07));
                    lemma_code_size_bound(**inner);
                }
                if let Err(e) = one {
                    return Err(e);
                }
                let ghost b = asset.bytes();
                let ghost p = asset.pos();
                let mid = asset.write_u32(*target);
                proof {
                    lemma_emit(
                        mid,
                        origin,
                        start,
                        enc_u8(0x07),
                        enc_u32(*target),
                        b,
                        p,
                        asset.bytes(),
                        asset.pos(),
                    );
                }
                if let Err(e) = mid {
                    return Err(e);
                }
                let ghost b = asset.bytes();
                let ghost p = asset.pos();
                let two = KismetExpression::write_sized(inner, asset);
                proof {
                    lemma_emit_part(
                        match two {
                            Ok(_) => Ok::<(), Error>(()),
                            Err(e) => Err::<(), Error>(e),
                        },
                        (),
                        origin,
                        start,
                        enc_u8(0x07) + enc_u32(*target),
                        ser_expression(**inner),
                        b,
                        p,
                        asset.bytes(),
                        asset.pos(),
                    );
                }
                match two {
                    Ok(n) => Ok(5 + n),
                    Err(e) => Err(e),
                }
            },
            KismetExpression::ExObjectConst(link) => {
                let one = KismetExpression::write_token(asset, 0x20);
                proof {
                    lemma_emit(
                        one,
                        origin,
                        start,
                        none,
                        enc_u8(0x20),
                        origin,
                        start,
                        asset.bytes(),
                        asset.pos(),
                    );
                    assert(none + enc_u8(0x20) =~= enc_u8(0x20));
                }
                if let Err(e) = one {
                    return Err(e);
                }
                let ghost b = asset.bytes();
                let ghost p = asset.pos();
                let two = asset.write_i32(link.index);
                proof {
                    lemma_emit(
                        two,
                        origin,
                        start,
                        enc_u8(0x20),
                        enc_i32(link.index),
                        b,
                        p,
                        asset.bytes(),
                        asset.pos(),
                    );
                }
                match two {
                    Ok(()) => Ok(9),
                    Err(e) => Err(e),
                }
            },
            KismetExpression::ExJump(v) => {
                let one = KismetExpression::write_token(asset, 0x06);
                proof {
                    lemma_emit(
                        one,
                        origin,
                        start,
                        none,
                        enc_u8(0x06),
                        origin,
                        start,
                        asset.bytes(),
                        asset.pos(),
                    );
                    assert(none + enc_u8(0x06) =~= enc_u8(0x06));
                }
                if let Err(e) = one {
                    return Err(e);
                }
                let ghost b = asset.bytes();
                let ghost p = asset.pos();
                let two = asset.write_u32(*v);
                proof {
                    lemma_emit(
                        two,
                        origin,
                        start,
                        enc_u8(0x06),
                        enc_u32(*v),
                        b,
                        p,
                        asset.bytes(),
                        asset.pos(),
                    );
                }
                match two {
                    Ok(()) => Ok(5),
                    Err(e) => Err(e),
                }
            },
            KismetExpression::ExIntConst(v) => {
                let one = KismetExpression::write_token(asset, 0x1d);
                proof {
                    lemma_emit(
                        one,
                        origin,
                        start,
                        none,
                        enc_u8(0x1d),
                        origin,
                        start,
                        asset.bytes(),
                        asset.pos(),
                    );
                    assert(none + enc_u8(0x1d) =~= enc_u8(0x1d));
                }
                if let Err(e) = one {
                    return Err(e);
                }
                let ghost b = asset.bytes();
                let ghost p = asset.pos();
                let two = asset.write_i32(*v);
                proof {
                    lemma_emit(
                        two,
                        origin,
                        start,
                        enc_u8(0x1d),
                        enc_i32(*v),
                        b,
                        p,
                        asset.bytes(),
                        asset.pos(),
                    );
                }
                match two {
                    Ok(()) => Ok(5),
                    Err(e) => Err(e),
                }
            },
            KismetExpression::ExFloatConst(v) => {
                let one = KismetExpression::write_token(asset, 0x1e);
                proof {
                    lemma_emit(
                        one,
                        origin,
                        start,
                        none,
                        enc_u8(0x1e),
                        origin,
                        start,
                        asset.bytes(),
                        asset.pos(),
                    );
                    assert(none + enc_u8(0x1e) =~= enc_u8(0x1e));
                }
                if let Err(e) = one {
                    return Err(e);
                }
                let ghost b = asset.bytes();
                let ghost p = asset.pos();
                let two = asset.write_u32(*v);
                proof {
                    lemma_emit(
                        two,
                        origin,
                        start,
                        enc_u8(0x1e),
                        enc_u32(*v),
                        b,
                        p,
                        asset.bytes(),
                        asset.pos(),
                    );
                }
                match two {
                    Ok(()) => Ok(5),
                    Err(e) => Err(e),
                }
            },
            KismetExpression::ExByteConst(v) => {
                let one = KismetExpression::write_token(asset, 0x24);
                proof {
                    lemma_emit(
                        one,
                        origin,
                        start,
                        none,
                        enc_u8(0x24),
                        origin,
                        start,
                        asset.bytes(),
                        asset.pos(),
                    );
                    assert(none + enc_u8(0x24) =~= enc_u8(0x24));
                }
                if let Err(e) = one {
                    return Err(e);
                }
                let ghost b = asset.bytes();
                let ghost p = asset.pos();
                let two = asset.write_u8(*v);
                proof {
                    lemma_emit(
                        two,
                        origin,
                        start,
                        enc_u8(0x24),
                        enc_u8(*v),
                        b,
                        p,
                        asset.bytes(),
                        asset.pos(),
                    );
                }
                match two {
                    Ok(()) => Ok(2),
                    Err(e) => Err(e),
                }
            },
            KismetExpression::ExIntConstByte(v) => {
                let one = KismetExpression::write_token(asset, 0x2c);
                proof {
                    lemma_emit(
                        one,
                        origin,
                        start,
                        none,
                        enc_u8(0x2c),
                        origin,
                        start,
                        asset.bytes(),
                        asset.pos(),
                    );
                    assert(none + enc_u8(0x2c) =~= enc_u8(0x2c));
                }
                if let Err(e) = one {
                    return Err(e);
                }
                let ghost b = asset.bytes();
                let ghost p = asset.pos();
                let two = asset.write_u8(*v);
                proof {
                    lemma_emit(
                        two,
                        origin,
                        start,
                        enc_u8(0x2c),
                        enc_u8(*v),
                        b,
                        p,
                        asset.bytes(),
                        asset.pos(),
                    );
                }
                match two {
                    Ok(()) => Ok(2),
                    Err(e) => Err(e),
                }
            },
            KismetExpression::ExInt64Const(v) => {
                let one = KismetExpression::write_token(asset, 0x35);
                proof {
                    lemma_emit(
                        one,
                        origin,
                        start,
                        none,
                        enc_u8(0x35),
                        origin,
                        start,
                        asset.bytes(),
                        asset.pos(),
                    );
                    assert(none + enc_u8(0x35) =~= enc_u8(0x35));
                }
                if let Err(e) = one {
                    return Err(e);
                }
                let ghost b = asset.bytes();
                let ghost p = asset.pos();
                let two = asset.write_i64(*v);
                proof {
                    lemma_emit(
                        two,
                        origin,
                        start,
                        enc_u8(0x35),
                        enc_i64(*v),
                        b,
                        p,
                        asset.bytes(),
                        asset.pos(),
                    );
                }
                match two {
                    Ok(()) => Ok(9),
                    Err(e) => Err(e),
                }
            },
            KismetExpression::ExUInt64Const(v) => {
                let one = KismetExpression::write_token(asset, 0x36);
                proof {
                    lemma_emit(
                        one,
                        origin,
                        start,
                        none,
                        enc_u8(0x36),
                        origin,
                        start,
                        asset.bytes(),
                        asset.pos(),
                    );
                    assert(none + enc_u8(0x36) =~= enc_u8(0x36));
                }
                if let Err(e) = one {
                    return Err(e);
                }
                let ghost b = asset.bytes();
                let ghost p = asset.pos();
                let two = asset.write_u64(*v);
                proof {
                    lemma_emit(
                        two,
                        origin,
                        start,
                        enc_u8(0x36),
                        enc_u64(*v),
                        b,
                        p,
                        asset.bytes(),
                        asset.pos(),
                    );
                }
                match two {
                    Ok(()) => Ok(9),
                    Err(e) => Err(e),
                }
            },
            KismetExpression::ExNothing => {
                let one = KismetExpression::write_token(asset, 0x0b);
                proof {
                    lemma_emit(
                        one,
                        origin,
                        start,
                        none,
                        enc_u8(0x0b),
                        origin,
                        start,
                        asset.bytes(),
                        asset.pos(),
                    );
                    assert(none + enc_u8(0x0b) =~= enc_u8(0x0b));
                }
                match one {
                    Ok(()) => Ok(1),
                    Err(e) => Err(e),
                }
            },
            KismetExpression::ExEndFunctionParms => {
                let one = KismetExpression::write_token(asset, 0x16);
                proof {
                    lemma_emit(
                        one,
                        origin,
                        start,
                        none,
                        enc_u8(0x16),
                        origin,
                        start,
                        asset.bytes(),
                        asset.pos(),
                    );
                    assert(none + enc_u8(0x16) =~= enc_u8(0x16));
                }
                match one {
                    Ok(()) => Ok(1),
                    Err(e) => Err(e),
                }
            },
            KismetExpression::ExSelf => {
                let one = KismetExpression::write_token(asset, 0x17);
                proof {
                    lemma_emit(
                        one,
                        origin,
                        start,
                        none,
                        enc_u8(0x17),
                        origin,
                        start,
                        asset.bytes(),
                        asset.pos(),
                    );
                    assert(none + enc_u8(0x17) =~= enc_u8(0x17));
                }
                match one {
                    Ok(()) => Ok(1),
                    Err(e) => Err(e),
                }
            },
            KismetExpression::ExIntZero => {
                let one = KismetExpression::write_token(asset, 0x25);
                proof {
                    lemma_emit(
                        one,
                        origin,
                        start,
                        none,
                        enc_u8(0x25),
                        origin,
                        start,
                        asset.bytes(),
                        asset.pos(),
                    );
                    assert(none + enc_u8(0x25) =~= enc_u8(0x25));
                }
                match one {
                    Ok(()) => Ok(1),
                    Err(e) => Err(e),
                }
            },
            KismetExpression::ExIntOne => {
                let one = KismetExpression::write_token(asset, 0x26);
                proof {
                    lemma_emit(
                        one,
                        origin,
                        start,
                        none,
                        enc_u8(0x26),
                        origin,
                        start,
                        asset.bytes(),
                        asset.pos(),
                    );
                    assert(none + enc_u8(0x26) =~= enc_u8(0x26));
                }
                match one {
                    Ok(()) => Ok(1),
                    Err(e) => Err(e),
                }
            },
            KismetExpression::ExTrue => {
                let one = KismetExpression::write_token(asset, 0x27);
                proof {
                    lemma_emit(
                        one,
                        origin,
                        start,
                        none,
                        enc_u8(0x27),
                        origin,
                        start,
                        asset.bytes(),
                        asset.pos(),
                    );
                    assert(none + enc_u8(0x27) =~= enc_u8(0x27));
                }
                match one {
                    Ok(()) => Ok(1),
                    Err(e) => Err(e),
                }
            },
            KismetExpression::ExFalse => {
                let one = KismetExpression::write_token(asset, 0x28);
                proof {
                    lemma_emit(
                        one,
                        origin,
                        start,
                        none,
                        enc_u8(0x28),
                        origin,
                        start,
                        asset.bytes(),
                        asset.pos(),
                    );
                    assert(none + enc_u8(0x28) =~= enc_u8(0x28));
                }
                match one {
                    Ok(()) => Ok(1),
                    Err(e) => Err(e),
                }
            },
            KismetExpression::ExNoObject => {
                let one = KismetExpression::write_token(asset, 0x2a);
                proof {
                    lemma_emit(
                        one,
                        origin,
                        start,
                        none,
                        enc_u8(0x2a),
                        origin,
                        start,
                        asset.bytes(),
                        asset.pos(),
                    );
                    assert(none + enc_u8(0x2a) =~= enc_u8(0x2a));
                }
                match one {
                    Ok(()) => Ok(1),
                    Err(e) => Err(e),
                }
            },
            KismetExpression::ExEndOfScript => {
                let one = KismetExpression::write_token(asset, 0x53);
                proof {
                    lemma_emit(
                        one,
                        origin,
                        start,
                        none,
                        enc_u8(0x53),
                        origin,
                        start,
                        asset.bytes(),
                        asset.pos(),
                    );
                    assert(none + enc_u8(0x53) =~= enc_u8(0x53));
                }
                match one {
                    Ok(()) => Ok(1),
                    Err(e) => Err(e),
                }
            },
        }
    }

    /// Writes an expression and reports the number of bytes that it takes
    /// in memory.
    pub fn write<Writer: AssetWriter>(expression: &KismetExpression, asset: &mut Writer) -> (r:
        Result<usize, Error>)
        ensures
            final(asset).env() == old(asset).env(),
            emitted(
                r,
                code_size(*expression) as usize,
                old(asset).bytes(),
                old(asset).pos(),
                final(asset).bytes(),
                final(asset).pos(),
                ser_expression(*expression),
            ),
    {
        match KismetExpression::write_sized(expression, asset) {
            Ok(n) => Ok(#[verifier::truncate] (n as usize)),
            Err(e) => Err(e),
        }
    }
}

/// Reading an expression ends behind where it started.
pub proof fn lemma_expression_advances(bytes: Seq<u8>, pos: u64)
    requires
        bytes.len() <= u64::MAX,
    ensures
        parse_expression(bytes, pos) matches Ok((_, end)) ==> end > pos,
    decreases u64::MAX - pos,
{
    match parse_u8(bytes, pos) {
        Ok((token, p)) => {
            if p > pos {
                if token == 0x04 {
                    lemma_expression_advances(bytes, p);
                } else if token == 0x07 {
                    match parse_u32(bytes, p) {
                        Ok((_, p2)) => {
                            if p2 > pos {
                                lemma_expression_advances(bytes, p2);
                            }
                        },
                        Err(e) => {},
                    }
                }
            }
        },
        Err(e) => {},
    }
}

/// An expression that was written is read back.
pub proof fn lemma_expression_round_trip(bytes: Seq<u8>, pos: u64, e: KismetExpression)
    requires
        bytes.len() <= u64::MAX,
        has_at(bytes, pos as int, ser_expression(e)),
    ensures
        parse_expression(bytes, pos) == Ok::<(KismetExpression, u64), Error>(
            (e, (pos + ser_expression(e).len()) as u64),
        ),
    decreases e,
{
    lemma_enc_dec();
    let token = e.token();
    let rest = ser_expression(e).subrange(1, ser_expression(e).len() as int);
    assert(ser_expression(e) =~= enc_u8(token) + rest);
    lemma_has_at_concat(bytes, pos as int, enc_u8(token), rest);
    assert(bytes.subrange(pos as int, pos + 1)[0] == token);
    match e {
        KismetExpression::ExReturn(inner) => {
            assert(rest =~= ser_expression(*inner));
            lemma_expression_round_trip(bytes, (pos + 1) as u64, *inner);
        },
        KismetExpression::ExJumpIfNot(target, inner) => {
            assert(rest =~= enc_u32(target) + ser_expression(*inner));
            lemma_has_at_concat(bytes, pos + 1, enc_u32(target), ser_expression(*inner));
            lemma_expression_round_trip(bytes, (pos + 5) as u64, *inner);
        },
        KismetExpression::ExObjectConst(link) => {
            assert(rest =~= enc_i32(link.index));
        },
        KismetExpression::ExJump(v) => {
            assert(rest =~= enc_u32(v));
        },
        KismetExpression::ExIntConst(v) => {
            assert(rest =~= enc_i32(v));
        },
        KismetExpression::ExFloatConst(v) => {
            assert(rest =~= enc_u32(v));
        },
        KismetExpression::ExByteConst(v) => {
            assert(rest =~= enc_u8(v));
            assert(bytes.subrange(pos + 1, pos + 2)[0] == v);
        },
        KismetExpression::ExIntConstByte(v) => {
            assert(rest =~= enc_u8(v));
            assert(bytes.subrange(pos + 1, pos + 2)[0] == v);
        },
        KismetExpression::ExInt64Const(v) => {
            assert(rest =~= enc_i64(v));
        },
        KismetExpression::ExUInt64Const(v) => {
            assert(rest =~= enc_u64(v));
        },
        _ => {},
    }
}

} // verus!
