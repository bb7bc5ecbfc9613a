//! Length-prefixed strings and one-byte truth values on a cursor.
//!
//! A string is stored behind a signed 32-bit length. Length zero is the null
//! string. A positive length counts the bytes of a UTF-8 text and its
//! terminating zero byte. A negative length counts, negated, the code units
//! of a little-endian UTF-16 text and its terminating zero unit.

use crate::cursor::{Cursor, SeekFrom};
use crate::error::{Error, InvalidFileError};
use crate::le;
use crate::le::{dec_u16, enc_i32, enc_u16, lemma_enc_dec};
use crate::stream::{
    enc_bool, has_at, lemma_has_at_concat, parse_bool, parse_i32, reads, skip, take, wrote,
    wrote_with, yields_deep, Parsed,
};
use vstd::prelude::*;
use vstd::slice::slice_subrange;
use vstd::string::{StringExecFns, StringExecFnsIsAscii};
use vstd::utf8::{
    char_is_scalar, char_u32_cast, decode_utf8, decode_utf8_encode_utf8, encode_utf8,
    encode_utf8_decode_utf8, encode_utf8_valid_utf8, is_ascii_chars, valid_utf8,
};

verus! {

/// The largest length, in either direction, that a string may declare.
pub const MAX_STRING_LENGTH: i32 = 131072;

/// The text `None`, which stands for a text that is not valid UTF-8.
pub open spec fn none_name() -> Seq<char> {
    seq!['N', 'o', 'n', 'e']
}

/// The UTF-16 code units of one character: itself below `0x10000`, a high
/// and a low surrogate above.
pub open spec fn utf16_units(c: char) -> Seq<u16> {
    let v = c as u32;
    if v < 0x10000 {
        seq![v as u16]
    } else {
        seq![(0xD800 + (v - 0x10000) / 0x400) as u16, (0xDC00 + (v - 0x10000) % 0x400) as u16]
    }
}

/// The UTF-16 encoding of a text.
pub open spec fn utf16_encode(s: Seq<char>) -> Seq<u16>
    decreases s.len(),
{
    if s.len() == 0 {
        Seq::<u16>::empty()
    } else {
        utf16_units(s[0]) + utf16_encode(s.drop_first())
    }
}

/// The text that a sequence of UTF-16 code units encodes, if it is well
/// formed: every unit outside the surrogate range is a character, and every
/// high surrogate is followed by a low one.
pub open spec fn utf16_decode(u: Seq<u16>) -> Option<Seq<char>>
    decreases u.len(),
{
    if u.len() == 0 {
        Some(Seq::<char>::empty())
    } else if u[0] < 0xD800 || u[0] > 0xDFFF {
        match utf16_decode(u.drop_first()) {
            Some(rest) => Some(seq![(u[0] as u32) as char] + rest),
            None => None,
        }
    } else if u[0] <= 0xDBFF && u.len() >= 2 && 0xDC00 <= u[1] <= 0xDFFF {
        match utf16_decode(u.skip(2)) {
            Some(rest) => Some(
                seq![((0x10000 + (u[0] - 0xD800) * 0x400 + (u[1] - 0xDC00)) as u32) as char]
                    + rest,
            ),
            None => None,
        }
    } else {
        None
    }
}

/// Decoding the UTF-16 encoding of a text gives the text back.
pub proof fn lemma_utf16_round_trip(s: Seq<char>)
    ensures
        utf16_decode(utf16_encode(s)) == Some(s),
    decreases s.len(),
{
    if s.len() > 0 {
        let c = s[0];
        let v = c as u32;
        let rest = s.drop_first();
        let u = utf16_encode(s);
        char_is_scalar(c);
        lemma_utf16_round_trip(rest);
        if v < 0x10000 {
            assert(u.drop_first() =~= utf16_encode(rest));
            char_u32_cast(c, u[0] as u32);
        } else {
            assert(u.skip(2) =~= utf16_encode(rest));
            let back = (0x10000 + (u[0] - 0xD800) * 0x400 + (u[1] - 0xDC00)) as u32;
            assert(back == v);
            char_u32_cast(c, back);
        }
        assert(seq![c] + rest =~= s);
    }
}

/// The little-endian bytes of a sequence of code units.
pub open spec fn units_to_bytes(u: Seq<u16>) -> Seq<u8> {
    Seq::new(2 * u.len(), |j: int| enc_u16(u[j / 2])[j % 2])
}

/// The code unit that the bytes `2 * i` and `2 * i + 1` of `b` hold.
pub open spec fn unit_at(b: Seq<u8>, i: int) -> u16 {
    dec_u16(b.subrange(2 * i, 2 * i + 2))
}

/// The code units that a sequence of bytes holds in little-endian pairs.
pub open spec fn bytes_to_units(b: Seq<u8>) -> Seq<u16> {
    Seq::new(b.len() / 2, |i: int| unit_at(b, i))
}

pub proof fn lemma_units_round_trip(u: Seq<u16>)
    ensures
        bytes_to_units(units_to_bytes(u)) == u,
{
    lemma_enc_dec();
    let b = units_to_bytes(u);
    assert forall|i: int| 0 <= i < u.len() implies unit_at(b, i) == u[i] by {
        assert(b.subrange(2 * i, 2 * i + 2) =~= enc_u16(u[i]));
    }
    assert(bytes_to_units(b) =~= u);
}

/// The length that stands before a text of `n` UTF-8 bytes.
pub open spec fn utf8_prefix(n: nat) -> i32 {
    (n + 1) as i32
}

/// The length that stands before a text of `n` UTF-16 code units.
pub open spec fn utf16_prefix(n: nat) -> i32 {
    (-n - 1) as i32
}

/// The bytes of a string on disk. A text of ASCII characters is stored as
/// UTF-8, any other text as UTF-16.
pub open spec fn ser_string(s: Option<Seq<char>>) -> Seq<u8> {
    match s {
        None => enc_i32(0),
        Some(cs) => if is_ascii_chars(cs) {
            enc_i32(utf8_prefix(encode_utf8(cs).len())) + encode_utf8(cs) + seq![0u8]
        } else {
            enc_i32(utf16_prefix(utf16_encode(cs).len())) + units_to_bytes(utf16_encode(cs))
                + seq![0u8, 0u8]
        },
    }
}

/// The count that writing a string reports: four for the null string, the
/// UTF-8 bytes and the terminator for an ASCII text, and twice the UTF-8
/// length plus two for any other text.
pub open spec fn string_written(s: Option<Seq<char>>) -> usize {
    match s {
        None => 4,
        Some(cs) => if is_ascii_chars(cs) {
            (encode_utf8(cs).len() + 1) as usize
        } else {
            (2 * encode_utf8(cs).len() + 2) as usize
        },
    }
}

/// The text of a UTF-8 payload: its decoding, or `None` where it is not
/// valid UTF-8.
pub open spec fn utf8_text(raw: Seq<u8>) -> Seq<char> {
    if valid_utf8(raw) {
        decode_utf8(raw)
    } else {
        none_name()
    }
}

/// The string that stands at `pos`.
pub open spec fn parse_string(bytes: Seq<u8>, pos: u64) -> Parsed<Option<Seq<char>>> {
    match parse_i32(bytes, pos) {
        Err(e) => Err(e),
        Ok((len, p)) => if len < -MAX_STRING_LENGTH || len > MAX_STRING_LENGTH {
            Err(Error::InvalidFile(InvalidFileError::StringLength(len)))
        } else if len == 0 {
            Ok((None, p))
        } else if len < 0 {
            match take(bytes, p, (-len * 2 - 2) as nat) {
                Err(e) => Err(e),
                Ok((raw, q)) => match utf16_decode(bytes_to_units(raw)) {
                    None => Err(Error::Utf16),
                    Some(cs) => match skip(q, 2) {
                        Err(e) => Err(e),
                        Ok(end) => Ok((Some(cs), end)),
                    },
                },
            }
        } else {
            match take(bytes, p, (len - 1) as nat) {
                Err(e) => Err(e),
                Ok((raw, q)) => match skip(q, 1) {
                    Err(e) => Err(e),
                    Ok(end) => Ok((Some(utf8_text(raw)), end)),
                },
            }
        },
    }
}

/// `String::from_utf8`: the string whose UTF-8 bytes are `bytes`, where
/// these are valid UTF-8, and nothing otherwise.
#[verifier::external_body]
fn string_from_utf8(bytes: Vec<u8>) -> (r: Option<String>)
    ensures
        match r {
            Some(s) => valid_utf8(bytes@) && encode_utf8(s@) == bytes@,
            None => !valid_utf8(bytes@),
        },
{
    String::from_utf8(bytes).ok()
}

/// `String::from_utf16`: the string that the code units encode, where they
/// are well-formed UTF-16, and nothing otherwise.
#[verifier::external_body]
fn string_from_utf16(units: &[u16]) -> (r: Option<String>)
    ensures
        match utf16_decode(units@) {
            Some(cs) => r is Some && r->Some_0@ == cs,
            None => r is None,
        },
{
    String::from_utf16(units).ok()
}

/// `str::encode_utf16`, collected: the UTF-16 code units of the text.
#[verifier::external_body]
fn string_to_utf16(s: &str) -> (r: Vec<u16>)
    ensures
        r@ == utf16_encode(s@),
{
    s.encode_utf16().collect()
}

/// The code units that `raw` holds in little-endian pairs.
fn units_from_bytes(raw: &Vec<u8>) -> (units: Vec<u16>)
    requires
        raw@.len() % 2 == 0,
    ensures
        units@ == bytes_to_units(raw@),
{
    let n = raw.len() / 2;
    let mut units: Vec<u16> = Vec::new();
    let mut i: usize = 0;
    while i < n
        invariant
            i <= n,
            2 * n == raw@.len(),
            raw@.len() <= usize::MAX,
            units@.len() == i,
            forall|j: int| 0 <= j < i ==> units@[j] == unit_at(raw@, j),
        decreases n - i,
    {
        let unit = le::read_u16(slice_subrange(raw.as_slice(), 2 * i, 2 * i + 2));
        units.push(unit);
        i = i + 1;
    }
    assert(units@ =~= bytes_to_units(raw@));
    units
}

/// The little-endian bytes of `units`.
fn units_into_bytes(units: &Vec<u16>, out: &mut Vec<u8>)
    ensures
        final(out)@ == old(out)@ + units_to_bytes(units@),
{
    let ghost before = out@;
    let n = units.len();
    let mut i: usize = 0;
    proof {
        lemma_enc_dec();
    }
    while i < n
        invariant
            i <= n,
            n == units@.len(),
            out@.len() == before.len() + 2 * i,
            forall|j: int| 0 <= j < before.len() ==> out@[j] == before[j],
            forall|j: int|
                0 <= j < 2 * i ==> #[trigger] out@[before.len() + j] == enc_u16(
                    units@[j / 2],
                )[j % 2],
            forall|x: u16| #[trigger] enc_u16(x).len() == 2,
        decreases n - i,
    {
        let pair = le::write_u16(units[i]);
        out.push(pair[0]);
        out.push(pair[1]);
        i = i + 1;
    }
    assert forall|k: int| 0 <= k < out@.len() implies out@[k] == (before + units_to_bytes(
        units@,
    ))[k] by {
        if k >= before.len() {
            let j = k - before.len();
            assert(out@[before.len() + j] == enc_u16(units@[j / 2])[j % 2]);
        }
    }
    assert(out@ =~= before + units_to_bytes(units@));
}

/// Length-prefixed strings and truth values on a byte stream.
pub trait CursorExt {
    /// The bytes of the stream.
    spec fn ext_bytes(&self) -> Seq<u8>;

    /// The position of the next read or write.
    spec fn ext_pos(&self) -> u64;

    /// Reads a string: its length, its payload and its terminator.
    fn read_string(&mut self) -> (r: Result<Option<String>, Error>)
        ensures
            final(self).ext_bytes() == old(self).ext_bytes(),
            yields_deep(
                r,
                final(self).ext_pos(),
                parse_string(old(self).ext_bytes(), old(self).ext_pos()),
            ),
    ;

    /// Reads one byte as a truth value.
    fn read_bool(&mut self) -> (r: Result<bool, Error>)
        ensures
            final(self).ext_bytes() == old(self).ext_bytes(),
            reads(
                r,
                old(self).ext_pos(),
                final(self).ext_pos(),
                parse_bool(old(self).ext_bytes(), old(self).ext_pos()),
            ),
    ;

    /// Writes a string, all of it or nothing, and reports its count.
    fn write_string(&mut self, string: &Option<String>) -> (r: Result<usize, Error>)
        ensures
            wrote_with(
                r,
                string_written(string.deep_view()),
                old(self).ext_bytes(),
                old(self).ext_pos(),
                final(self).ext_bytes(),
                final(self).ext_pos(),
                ser_string(string.deep_view()),
            ),
    ;

    /// Writes a truth value as one byte, one for true and zero for false.
    fn write_bool(&mut self, value: bool) -> (r: Result<(), Error>)
        ensures
            wrote(
                r,
                old(self).ext_bytes(),
                old(self).ext_pos(),
                final(self).ext_bytes(),
                final(self).ext_pos(),
                enc_bool(value),
            ),
    ;
}

impl CursorExt for Cursor {
    open spec fn ext_bytes(&self) -> Seq<u8> {
        self.bytes()
    }

    open spec fn ext_pos(&self) -> u64 {
        self.pos()
    }

    fn read_string(&mut self) -> (r: Result<Option<String>, Error>) {
        let len = match self.read_i32() {
            Ok(len) => len,
            Err(e) => return Err(e),
        };
        if len < -MAX_STRING_LENGTH || len > MAX_STRING_LENGTH {
            return Err(Error::InvalidFile(InvalidFileError::StringLength(len)));
        }
        if len == 0 {
            return Ok(None);
        }
        if len < 0 {
            let count = (-len * 2 - 2) as usize;
            let raw = match self.read_exact(count) {
                Ok(raw) => raw,
                Err(e) => return Err(e),
            };
            let units = units_from_bytes(&raw);
            let string = match string_from_utf16(units.as_slice()) {
                Some(string) => string,
                None => return Err(Error::Utf16),
            };
            match self.seek(SeekFrom::Current(2)) {
                Ok(_) => Ok(Some(string)),
                Err(e) => Err(e),
            }
        } else {
            let raw = match self.read_exact((len - 1) as usize) {
                Ok(raw) => raw,
                Err(e) => return Err(e),
            };
            let ghost raw_bytes = raw@;
            let string = match string_from_utf8(raw) {
                Some(string) => {
                    proof {
                        encode_utf8_decode_utf8(string@);
                    }
                    string
                },
                None => {
                    proof {
                        reveal_strlit("None");
                    }
                    let fallback = String::from_str("None");
                    assert(fallback@ =~= none_name());
                    fallback
                },
            };
            assert(string@ == utf8_text(raw_bytes));
            match self.seek(SeekFrom::Current(1)) {
                Ok(_) => Ok(Some(string)),
                Err(e) => Err(e),
            }
        }
    }

    fn read_bool(&mut self) -> (r: Result<bool, Error>) {
        match self.read_u8() {
            Ok(b) => Ok(b > 0),
            Err(e) => Err(e),
        }
    }

    fn write_string(&mut self, string: &Option<String>) -> (r: Result<usize, Error>) {
        let mut chunk: Vec<u8> = Vec::new();
        let written: usize;
        proof {
            lemma_enc_dec();
        }
        match string {
            None => {
                let prefix = le::write_i32(0);
                chunk = prefix;
                written = 4;
            },
            Some(string) => {
                let text = string.as_str();
                let bytes = text.as_bytes();
                let size = bytes.len();
                if text.is_ascii() {
                    let prefix = le::write_i32(#[verifier::truncate] ((size as u128 + 1) as i32));
                    chunk = prefix;
                    let mut i: usize = 0;
                    let ghost head = chunk@;
                    while i < size
                        invariant
                            i <= size,
                            size == bytes@.len(),
                            chunk@ == head + bytes@.subrange(0, i as int),
                        decreases size - i,
                    {
                        chunk.push(bytes[i]);
                        assert(chunk@ =~= head + bytes@.subrange(0, i + 1));
                        i = i + 1;
                    }
                    chunk.push(0);
                    assert(chunk@ =~= ser_string(Some(string@)));
                    written = #[verifier::truncate] ((size as u128 + 1) as usize);
                } else {
                    let units = string_to_utf16(text);
                    let prefix = le::write_i32(
                        #[verifier::truncate] ((-(units.len() as i128) - 1) as i32),
                    );
                    chunk = prefix;
                    units_into_bytes(&units, &mut chunk);
                    chunk.push(0);
                    chunk.push(0);
                    assert(chunk@ =~= ser_string(Some(string@)));
                    written = #[verifier::truncate] ((size as u128 * 2 + 2) as usize);
                }
            },
        }
        match self.write_all(chunk.as_slice()) {
            Ok(()) => Ok(written),
            Err(e) => Err(e),
        }
    }

    fn write_bool(&mut self, value: bool) -> (r: Result<(), Error>) {
        self.write_u8(
            match value {
                true => 1,
                false => 0,
            },
        )
    }
}

/// Reading a string ends at least four bytes behind where it started.
pub proof fn lemma_string_advances(bytes: Seq<u8>, pos: u64)
    requires
        bytes.len() <= u64::MAX,
    ensures
        parse_string(bytes, pos) matches Ok((_, p)) ==> p >= pos + 4,
{
}

/// Whether a string is read back as it was written: any string but a text
/// too long for its length to be accepted.
pub open spec fn string_kept(s: Option<Seq<char>>) -> bool {
    s matches Some(cs) ==> if is_ascii_chars(cs) {
        cs.len() < MAX_STRING_LENGTH
    } else {
        utf16_encode(cs).len() < MAX_STRING_LENGTH
    }
}

/// A string that was written is read back: for the null string, for every
/// ASCII text of at most 131071 characters, and for every other text of at
/// most 131071 UTF-16 code units, the string stands on disk in such a way
/// that reading at its start yields it and ends behind it.
pub proof fn lemma_string_round_trip(bytes: Seq<u8>, pos: u64, s: Option<Seq<char>>)
    requires
        bytes.len() <= u64::MAX,
        has_at(bytes, pos as int, ser_string(s)),
        string_kept(s),
    ensures
        parse_string(bytes, pos) == Ok::<(Option<Seq<char>>, u64), Error>(
            (s, (pos + ser_string(s).len()) as u64),
        ),
{
    lemma_enc_dec();
    match s {
        None => {
            assert(bytes.subrange(pos as int, pos + 4) == enc_i32(0));
        },
        Some(cs) => {
            if is_ascii_chars(cs) {
                let payload = encode_utf8(cs);
                vstd::utf8::is_ascii_chars_encode_utf8(cs);
                let prefix = enc_i32(utf8_prefix(payload.len()));
                lemma_has_at_concat(bytes, pos as int, prefix + payload, seq![0u8]);
                lemma_has_at_concat(bytes, pos as int, prefix, payload);
                encode_utf8_valid_utf8(cs);
                encode_utf8_decode_utf8(cs);
            } else {
                let units = utf16_encode(cs);
                let payload = units_to_bytes(units);
                let prefix = enc_i32(utf16_prefix(units.len()));
                lemma_has_at_concat(bytes, pos as int, prefix + payload, seq![0u8, 0u8]);
                lemma_has_at_concat(bytes, pos as int, prefix, payload);
                lemma_units_round_trip(units);
                lemma_utf16_round_trip(cs);
            }
        },
    }
}

/// A text has at most as many UTF-16 code units as UTF-8 bytes.
pub proof fn lemma_utf16_within_utf8(s: Seq<char>)
    ensures
        utf16_encode(s).len() <= encode_utf8(s).len(),
    decreases s.len(),
{
    if s.len() > 0 {
        char_is_scalar(s[0]);
        lemma_utf16_within_utf8(s.drop_first());
    }
}

/// The text that code units encode has as many code units as they are,
/// and at most as many characters.
pub proof fn lemma_utf16_decoded_length(u: Seq<u16>)
    ensures
        utf16_decode(u) matches Some(s) ==> utf16_encode(s).len() == u.len() && s.len()
            <= u.len(),
    decreases u.len(),
{
    if u.len() == 0 {
    } else if u[0] < 0xD800 || u[0] > 0xDFFF {
        lemma_utf16_decoded_length(u.drop_first());
        if let Some(rest) = utf16_decode(u.drop_first()) {
            let c = (u[0] as u32) as char;
            let s = seq![c] + rest;
            assert(c as u32 == u[0] as u32);
            assert(s.drop_first() =~= rest);
        }
    } else if u[0] <= 0xDBFF && u.len() >= 2 && 0xDC00 <= u[1] <= 0xDFFF {
        lemma_utf16_decoded_length(u.skip(2));
        if let Some(rest) = utf16_decode(u.skip(2)) {
            let v = (0x10000 + (u[0] - 0xD800) * 0x400 + (u[1] - 0xDC00)) as u32;
            let c = v as char;
            let s = seq![c] + rest;
            assert(c as u32 == v);
            assert(s.drop_first() =~= rest);
        }
    }
}

/// Every string that is read is one that is read back when it is written.
pub proof fn lemma_string_read_is_kept(bytes: Seq<u8>, pos: u64)
    ensures
        parse_string(bytes, pos) matches Ok((s, _)) ==> string_kept(s),
{
    if let Ok((Some(cs), _)) = parse_string(bytes, pos) {
        let len = parse_i32(bytes, pos)->Ok_0.0;
        let p = parse_i32(bytes, pos)->Ok_0.1;
        if len < 0 {
            let raw = take(bytes, p, (-len * 2 - 2) as nat)->Ok_0.0;
            lemma_utf16_decoded_length(bytes_to_units(raw));
        } else {
            let raw = take(bytes, p, (len - 1) as nat)->Ok_0.0;
            if valid_utf8(raw) {
                decode_utf8_encode_utf8(raw);
                lemma_utf16_within_utf8(cs);
                if is_ascii_chars(cs) {
                    vstd::utf8::is_ascii_chars_encode_utf8(cs);
                }
            }
        }
    }
}

} // verus!
