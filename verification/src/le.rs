//! Little-endian encodings of the fixed-width integers.
//!
//! The conversions themselves are made by the `byteorder` crate; this module
//! states what they compute: the byte with index `k` of an encoding holds
//! the digit of weight `256^k`, and a signed integer is encoded as the
//! unsigned integer that is congruent to it.

use byteorder::{ByteOrder, LittleEndian};
use vstd::prelude::*;

verus! {

/// The encoding of an unsigned 8-bit integer: itself.
pub open spec fn enc_u8(x: u8) -> Seq<u8> {
    seq![x]
}

/// The unsigned 8-bit integer that one byte encodes.
pub open spec fn dec_u8(s: Seq<u8>) -> u8 {
    s[0]
}

/// The encoding of a signed 8-bit integer: the byte that is congruent to it.
pub open spec fn enc_i8(x: i8) -> Seq<u8> {
    seq![
        (if x < 0 {
            x + 0x100
        } else {
            x as int
        }) as u8,
    ]
}

/// The signed 8-bit integer that one byte encodes.
pub open spec fn dec_i8(s: Seq<u8>) -> i8 {
    (if s[0] >= 0x80 {
        s[0] - 0x100
    } else {
        s[0] as int
    }) as i8
}

/// The little-endian encoding of an unsigned 16-bit integer.
#[verifier::opaque]
pub open spec fn enc_u16(x: u16) -> Seq<u8> {
    seq![(x % 256) as u8, (x / 0x100) as u8]
}

/// The unsigned 16-bit integer that 2 bytes encode in little-endian
/// order.
#[verifier::opaque]
pub open spec fn dec_u16(s: Seq<u8>) -> u16 {
    (s[0] + 0x100 * s[1]) as u16
}

/// The little-endian encoding of a signed 16-bit integer: that of the
/// unsigned integer that is congruent to it.
pub open spec fn enc_i16(x: i16) -> Seq<u8> {
    enc_u16(
        (if x < 0 {
            x + 0x10000
        } else {
            x as int
        }) as u16,
    )
}

/// The signed 16-bit integer that 2 bytes encode in little-endian
/// order.
pub open spec fn dec_i16(s: Seq<u8>) -> i16 {
    (if dec_u16(s) >= 0x8000 {
        dec_u16(s) - 0x10000
    } else {
        dec_u16(s) as int
    }) as i16
}

/// The little-endian encoding of an unsigned 32-bit integer.
#[verifier::opaque]
pub open spec fn enc_u32(x: u32) -> Seq<u8> {
    seq![
        (x % 256) as u8,
        ((x / 0x100) % 256) as u8,
        ((x / 0x10000) % 256) as u8,
        (x / 0x1000000) as u8,
    ]
}

/// The unsigned 32-bit integer that 4 bytes encode in little-endian
/// order.
#[verifier::opaque]
pub open spec fn dec_u32(s: Seq<u8>) -> u32 {
    (s[0] + 0x100 * s[1] + 0x10000 * s[2] + 0x1000000 * s[3]) as u32
}

/// The little-endian encoding of a signed 32-bit integer: that of the
/// unsigned integer that is congruent to it.
pub open spec fn enc_i32(x: i32) -> Seq<u8> {
    enc_u32(
        (if x < 0 {
            x + 0x100000000
        } else {
            x as int
        }) as u32,
    )
}

/// The signed 32-bit integer that 4 bytes encode in little-endian
/// order.
pub open spec fn dec_i32(s: Seq<u8>) -> i32 {
    (if dec_u32(s) >= 0x80000000 {
        dec_u32(s) - 0x100000000
    } else {
        dec_u32(s) as int
    }) as i32
}

/// The little-endian encoding of an unsigned 64-bit integer.
#[verifier::opaque]
pub open spec fn enc_u64(x: u64) -> Seq<u8> {
    seq![
        (x % 256) as u8,
        ((x / 0x100) % 256) as u8,
        ((x / 0x10000) % 256) as u8,
        ((x / 0x1000000) % 256) as u8,
        ((x / 0x100000000) % 256) as u8,
        ((x / 0x10000000000) % 256) as u8,
        ((x / 0x1000000000000) % 256) as u8,
        (x / 0x100000000000000) as u8,
    ]
}

/// The unsigned 64-bit integer that 8 bytes encode in little-endian
/// order.
#[verifier::opaque]
pub open spec fn dec_u64(s: Seq<u8>) -> u64 {
    (s[0] + 0x100 * s[1] + 0x10000 * s[2] + 0x1000000 * s[3] + 0x100000000 * s[4]
        + 0x10000000000 * s[5] + 0x1000000000000 * s[6] + 0x100000000000000 * s[7]) as u64
}

/// The little-endian encoding of a signed 64-bit integer: that of the
/// unsigned integer that is congruent to it.
pub open spec fn enc_i64(x: i64) -> Seq<u8> {
    enc_u64(
        (if x < 0 {
            x + 0x10000000000000000
        } else {
            x as int
        }) as u64,
    )
}

/// The signed 64-bit integer that 8 bytes encode in little-endian
/// order.
pub open spec fn dec_i64(s: Seq<u8>) -> i64 {
    (if dec_u64(s) >= 0x8000000000000000 {
        dec_u64(s) - 0x10000000000000000
    } else {
        dec_u64(s) as int
    }) as i64
}

/// Decoding the encoding of an unsigned 16-bit integer gives it back.
proof fn lemma_digits_u16(x: u16)
    ensures
        enc_u16(x).len() == 2,
        dec_u16(enc_u16(x)) == x,
{
    reveal(enc_u16);
    reveal(dec_u16);
    let v = x as int;
    let q0 = v;
    let q1 = q0 / 256;
    assert(q1 == v / 0x100) by {
        vstd::arithmetic::div_mod::lemma_div_denominator(v, 0x1, 256);
    }
    assert(q0 == 256 * q1 + q0 % 256);
    assert(q1 < 256);
    let s = enc_u16(x);
    assert(s[0] == q0 % 256);
    assert(s[1] == q1);
}

/// Decoding the encoding of an unsigned 32-bit integer gives it back.
proof fn lemma_digits_u32(x: u32)
    ensures
        enc_u32(x).len() == 4,
        dec_u32(enc_u32(x)) == x,
{
    reveal(enc_u32);
    reveal(dec_u32);
    let v = x as int;
    let q0 = v;
    let q1 = q0 / 256;
    assert(q1 == v / 0x100) by {
        vstd::arithmetic::div_mod::lemma_div_denominator(v, 0x1, 256);
    }
    assert(q0 == 256 * q1 + q0 % 256);
    let q2 = q1 / 256;
    assert(q2 == v / 0x10000) by {
        vstd::arithmetic::div_mod::lemma_div_denominator(v, 0x100, 256);
    }
    assert(q1 == 256 * q2 + q1 % 256);
    let q3 = q2 / 256;
    assert(q3 == v / 0x1000000) by {
        vstd::arithmetic::div_mod::lemma_div_denominator(v, 0x10000, 256);
    }
    assert(q2 == 256 * q3 + q2 % 256);
    assert(q3 < 256);
    let s = enc_u32(x);
    assert(s[0] == q0 % 256);
    assert(s[1] == q1 % 256);
    assert(s[2] == q2 % 256);
    assert(s[3] == q3);
}

/// Decoding the encoding of an unsigned 64-bit integer gives it back.
proof fn lemma_digits_u64(x: u64)
    ensures
        enc_u64(x).len() == 8,
        dec_u64(enc_u64(x)) == x,
{
    reveal(enc_u64);
    reveal(dec_u64);
    let v = x as int;
    let q0 = v;
    let q1 = q0 / 256;
    assert(q1 == v / 0x100) by {
        vstd::arithmetic::div_mod::lemma_div_denominator(v, 0x1, 256);
    }
    assert(q0 == 256 * q1 + q0 % 256);
    let q2 = q1 / 256;
    assert(q2 == v / 0x10000) by {
        vstd::arithmetic::div_mod::lemma_div_denominator(v, 0x100, 256);
    }
    assert(q1 == 256 * q2 + q1 % 256);
    let q3 = q2 / 256;
    assert(q3 == v / 0x1000000) by {
        vstd::arithmetic::div_mod::lemma_div_denominator(v, 0x10000, 256);
    }
    assert(q2 == 256 * q3 + q2 % 256);
    let q4 = q3 / 256;
    assert(q4 == v / 0x100000000) by {
        vstd::arithmetic::div_mod::lemma_div_denominator(v, 0x1000000, 256);
    }
    assert(q3 == 256 * q4 + q3 % 256);
    let q5 = q4 / 256;
    assert(q5 == v / 0x10000000000) by {
        vstd::arithmetic::div_mod::lemma_div_denominator(v, 0x100000000, 256);
    }
    assert(q4 == 256 * q5 + q4 % 256);
    let q6 = q5 / 256;
    assert(q6 == v / 0x1000000000000) by {
        vstd::arithmetic::div_mod::lemma_div_denominator(v, 0x10000000000, 256);
    }
    assert(q5 == 256 * q6 + q5 % 256);
    let q7 = q6 / 256;
    assert(q7 == v / 0x100000000000000) by {
        vstd::arithmetic::div_mod::lemma_div_denominator(v, 0x1000000000000, 256);
    }
    assert(q6 == 256 * q7 + q6 % 256);
    assert(q7 < 256);
    let s = enc_u64(x);
    assert(s[0] == q0 % 256);
    assert(s[1] == q1 % 256);
    assert(s[2] == q2 % 256);
    assert(s[3] == q3 % 256);
    assert(s[4] == q4 % 256);
    assert(s[5] == q5 % 256);
    assert(s[6] == q6 % 256);
    assert(s[7] == q7);
}

/// Every encoding has the width of its type, and decoding an encoding gives
/// the value back.
pub proof fn lemma_enc_dec()
    ensures
        forall|x: u8| #[trigger] enc_u8(x).len() == 1 && dec_u8(enc_u8(x)) == x,
        forall|x: i8| #[trigger] enc_i8(x).len() == 1 && dec_i8(enc_i8(x)) == x,
        forall|x: u16| #[trigger] enc_u16(x).len() == 2 && dec_u16(enc_u16(x)) == x,
        forall|x: i16| #[trigger] enc_i16(x).len() == 2 && dec_i16(enc_i16(x)) == x,
        forall|x: u32| #[trigger] enc_u32(x).len() == 4 && dec_u32(enc_u32(x)) == x,
        forall|x: i32| #[trigger] enc_i32(x).len() == 4 && dec_i32(enc_i32(x)) == x,
        forall|x: u64| #[trigger] enc_u64(x).len() == 8 && dec_u64(enc_u64(x)) == x,
        forall|x: i64| #[trigger] enc_i64(x).len() == 8 && dec_i64(enc_i64(x)) == x,
{
    assert forall|x: u16| #[trigger] enc_u16(x).len() == 2 && dec_u16(enc_u16(x)) == x by {
        lemma_digits_u16(x);
    }
    assert forall|x: u32| #[trigger] enc_u32(x).len() == 4 && dec_u32(enc_u32(x)) == x by {
        lemma_digits_u32(x);
    }
    assert forall|x: u64| #[trigger] enc_u64(x).len() == 8 && dec_u64(enc_u64(x)) == x by {
        lemma_digits_u64(x);
    }
    assert forall|x: i16| #[trigger] enc_i16(x).len() == 2 && dec_i16(enc_i16(x)) == x by {
        let u = (if x < 0 {
            x + 0x10000
        } else {
            x as int
        }) as u16;
        lemma_digits_u16(u);
    }
    assert forall|x: i32| #[trigger] enc_i32(x).len() == 4 && dec_i32(enc_i32(x)) == x by {
        let u = (if x < 0 {
            x + 0x100000000
        } else {
            x as int
        }) as u32;
        lemma_digits_u32(u);
    }
    assert forall|x: i64| #[trigger] enc_i64(x).len() == 8 && dec_i64(enc_i64(x)) == x by {
        let u = (if x < 0 {
            x + 0x10000000000000000
        } else {
            x as int
        }) as u64;
        lemma_digits_u64(u);
    }
}

/// `byteorder::LittleEndian::read_u16`: the value whose little-endian
/// encoding is the two bytes of `buf`.
#[verifier::external_body]
pub(crate) fn read_u16(buf: &[u8]) -> (r: u16)
    requires
        buf@.len() == 2,
    ensures
        r == dec_u16(buf@),
{
    LittleEndian::read_u16(buf)
}

/// `byteorder::LittleEndian::read_i16`: the two bytes of `buf`, read as a
/// little-endian unsigned value and reinterpreted as signed in two's
/// complement.
#[verifier::external_body]
pub(crate) fn read_i16(buf: &[u8]) -> (r: i16)
    requires
        buf@.len() == 2,
    ensures
        r == dec_i16(buf@),
{
    LittleEndian::read_i16(buf)
}

/// `byteorder::LittleEndian::read_u32`: the value whose little-endian
/// encoding is the four bytes of `buf`.
#[verifier::external_body]
pub(crate) fn read_u32(buf: &[u8]) -> (r: u32)
    requires
        buf@.len() == 4,
    ensures
        r == dec_u32(buf@),
{
    LittleEndian::read_u32(buf)
}

/// `byteorder::LittleEndian::read_i32`: the four bytes of `buf`, read as a
/// little-endian unsigned value and reinterpreted as signed in two's
/// complement.
#[verifier::external_body]
pub(crate) fn read_i32(buf: &[u8]) -> (r: i32)
    requires
        buf@.len() == 4,
    ensures
        r == dec_i32(buf@),
{
    LittleEndian::read_i32(buf)
}

/// `byteorder::LittleEndian::read_u64`: the value whose little-endian
/// encoding is the eight bytes of `buf`.
#[verifier::external_body]
pub(crate) fn read_u64(buf: &[u8]) -> (r: u64)
    requires
        buf@.len() == 8,
    ensures
        r == dec_u64(buf@),
{
    LittleEndian::read_u64(buf)
}

/// `byteorder::LittleEndian::read_i64`: the eight bytes of `buf`, read as a
/// little-endian unsigned value and reinterpreted as signed in two's
/// complement.
#[verifier::external_body]
pub(crate) fn read_i64(buf: &[u8]) -> (r: i64)
    requires
        buf@.len() == 8,
    ensures
        r == dec_i64(buf@),
{
    LittleEndian::read_i64(buf)
}

/// `byteorder::LittleEndian::write_u16` into a fresh two-byte buffer: the
/// little-endian encoding of `n`.
#[verifier::external_body]
pub(crate) fn write_u16(n: u16) -> (r: Vec<u8>)
    ensures
        r@ == enc_u16(n),
{
    let mut buf = vec![0u8; 2];
    LittleEndian::write_u16(&mut buf, n);
    buf
}

/// `byteorder::LittleEndian::write_i16` into a fresh two-byte buffer: the
/// little-endian encoding of `n` reinterpreted as unsigned in two's
/// complement.
#[verifier::external_body]
pub(crate) fn write_i16(n: i16) -> (r: Vec<u8>)
    ensures
        r@ == enc_i16(n),
{
    let mut buf = vec![0u8; 2];
    LittleEndian::write_i16(&mut buf, n);
    buf
}

/// `byteorder::LittleEndian::write_u32` into a fresh four-byte buffer: the
/// little-endian encoding of `n`.
#[verifier::external_body]
pub(crate) fn write_u32(n: u32) -> (r: Vec<u8>)
    ensures
        r@ == enc_u32(n),
{
    let mut buf = vec![0u8; 4];
    LittleEndian::write_u32(&mut buf, n);
    buf
}

/// `byteorder::LittleEndian::write_i32` into a fresh four-byte buffer: the
/// little-endian encoding of `n` reinterpreted as unsigned in two's
/// complement.
#[verifier::external_body]
pub(crate) fn write_i32(n: i32) -> (r: Vec<u8>)
    ensures
        r@ == enc_i32(n),
{
    let mut buf = vec![0u8; 4];
    LittleEndian::write_i32(&mut buf, n);
    buf
}

/// `byteorder::LittleEndian::write_u64` into a fresh eight-byte buffer: the
/// little-endian encoding of `n`.
#[verifier::external_body]
pub(crate) fn write_u64(n: u64) -> (r: Vec<u8>)
    ensures
        r@ == enc_u64(n),
{
    let mut buf = vec![0u8; 8];
    LittleEndian::write_u64(&mut buf, n);
    buf
}

/// `byteorder::LittleEndian::write_i64` into a fresh eight-byte buffer: the
/// little-endian encoding of `n` reinterpreted as unsigned in two's
/// complement.
#[verifier::external_body]
pub(crate) fn write_i64(n: i64) -> (r: Vec<u8>)
    ensures
        r@ == enc_i64(n),
{
    let mut buf = vec![0u8; 8];
    LittleEndian::write_i64(&mut buf, n);
    buf
}

} // verus!
