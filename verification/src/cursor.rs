//! A seekable stream of bytes in memory.

use crate::error::{Error, IoError};
use crate::le;
use crate::le::{enc_i16, enc_i32, enc_i64, enc_i8, enc_u16, enc_u32, enc_u64, enc_u8};
use crate::stream::{
    lemma_write_at_concat, padded, parse_i16, parse_i32, parse_i64, parse_i8, parse_u16, parse_u32,
    parse_u64, parse_u8, reads, reads_view, take, write_at, wrote, zeros,
};
use vstd::prelude::*;
use vstd::slice::{slice_subrange, slice_to_vec};

verus! {

/// Where a seek starts from.
#[derive(Clone, Copy, Debug, PartialEq, Eq, Structural)]
pub enum SeekFrom {
    /// The given position.
    Start(u64),
    /// The end of the stream, moved by the given offset.
    End(i64),
    /// The current position, moved by the given offset.
    Current(i64),
}

/// The position that a seek leads to, if it can be represented.
pub open spec fn seek_target(len: nat, pos: u64, style: SeekFrom) -> Result<u64, Error> {
    let target: int = match style {
        SeekFrom::Start(n) => n as int,
        SeekFrom::End(n) => len + n,
        SeekFrom::Current(n) => pos + n,
    };
    if 0 <= target <= u64::MAX {
        Ok(target as u64)
    } else {
        Err(Error::invalid_input())
    }
}

/// A growable buffer of bytes with a position. Reads take bytes from the
/// position on; writes replace or append bytes there. The position may lie
/// behind the end of the buffer.
pub struct Cursor {
    inner: Vec<u8>,
    pos: u64,
}

impl Cursor {
    /// The bytes of the stream.
    pub closed spec fn bytes(&self) -> Seq<u8> {
        self.inner@
    }

    /// The position of the next read or write.
    pub closed spec fn pos(&self) -> u64 {
        self.pos
    }

    /// The stream lies in memory.
    pub proof fn lemma_bounded(&self)
        ensures
            self.bytes().len() <= usize::MAX,
    {
        let n = self.inner.len();
    }

    /// A cursor at the start of `inner`.
    pub fn new(inner: Vec<u8>) -> (c: Cursor)
        ensures
            c.bytes() == inner@,
            c.pos() == 0,
    {
        Cursor { inner, pos: 0 }
    }

    /// The bytes of the stream, giving up the cursor.
    pub fn into_inner(self) -> (v: Vec<u8>)
        ensures
            v@ == self.bytes(),
    {
        self.inner
    }

    /// The bytes of the stream.
    pub fn get_ref(&self) -> (v: &Vec<u8>)
        ensures
            v@ == self.bytes(),
    {
        &self.inner
    }

    pub fn position(&self) -> (p: u64)
        ensures
            p == self.pos(),
    {
        self.pos
    }

    pub fn set_position(&mut self, pos: u64)
        ensures
            final(self).pos() == pos,
            final(self).bytes() == old(self).bytes(),
    {
        self.pos = pos;
    }

    /// Moves the position. A target below zero or above the largest
    /// position is refused and leaves the position where it was.
    pub fn seek(&mut self, style: SeekFrom) -> (r: Result<u64, Error>)
        ensures
            final(self).bytes() == old(self).bytes(),
            r == seek_target(old(self).bytes().len(), old(self).pos(), style),
            match r {
                Ok(p) => final(self).pos() == p,
                Err(_) => final(self).pos() == old(self).pos(),
            },
    {
        let target = match style {
            SeekFrom::Start(n) => Some(n),
            SeekFrom::End(n) => (self.inner.len() as u64).checked_add_signed(n),
            SeekFrom::Current(n) => self.pos.checked_add_signed(n),
        };
        match target {
            Some(p) => {
                self.pos = p;
                Ok(p)
            },
            None => Err(Error::Io(IoError::InvalidInput)),
        }
    }

    /// Whether `n` bytes lie behind the position.
    fn available(&self, n: usize) -> (b: bool)
        ensures
            b == (self.pos() + n <= self.bytes().len()),
            self.bytes().len() <= usize::MAX,
    {
        let len = self.inner.len() as u64;
        self.pos <= len && len - self.pos >= n as u64
    }

    /// The next `n` bytes.
    pub fn read_exact(&mut self, n: usize) -> (r: Result<Vec<u8>, Error>)
        ensures
            final(self).bytes() == old(self).bytes(),
            reads_view(
                r,
                old(self).pos(),
                final(self).pos(),
                take(old(self).bytes(), old(self).pos(), n as nat),
            ),
    {
        if !self.available(n) {
            return Err(Error::Io(IoError::UnexpectedEof));
        }
        let start = self.pos as usize;
        let out = slice_to_vec(slice_subrange(self.inner.as_slice(), start, start + n));
        self.pos = self.pos + n as u64;
        Ok(out)
    }

    pub fn read_u8(&mut self) -> (r: Result<u8, Error>)
        ensures
            final(self).bytes() == old(self).bytes(),
            reads(
                r,
                old(self).pos(),
                final(self).pos(),
                parse_u8(old(self).bytes(), old(self).pos()),
            ),
    {
        if !self.available(1) {
            return Err(Error::Io(IoError::UnexpectedEof));
        }
        let b = self.inner[self.pos as usize];
        self.pos = self.pos + 1;
        Ok(b)
    }

    pub fn read_i8(&mut self) -> (r: Result<i8, Error>)
        ensures
            final(self).bytes() == old(self).bytes(),
            reads(
                r,
                old(self).pos(),
                final(self).pos(),
                parse_i8(old(self).bytes(), old(self).pos()),
            ),
    {
        if !self.available(1) {
            return Err(Error::Io(IoError::UnexpectedEof));
        }
        let b = self.inner[self.pos as usize];
        self.pos = self.pos + 1;
        assert((b as i8) as int == if b >= 0x80 {
            b as int - 0x100
        } else {
            b as int
        }) by (bit_vector);
        Ok(#[verifier::truncate] (b as i8))
    }

    pub fn read_u16(&mut self) -> (r: Result<u16, Error>)
        ensures
            final(self).bytes() == old(self).bytes(),
            reads(
                r,
                old(self).pos(),
                final(self).pos(),
                parse_u16(old(self).bytes(), old(self).pos()),
            ),
    {
        if !self.available(2) {
            return Err(Error::Io(IoError::UnexpectedEof));
        }
        let start = self.pos as usize;
        let v = le::read_u16(slice_subrange(self.inner.as_slice(), start, start + 2));
        self.pos = self.pos + 2;
        Ok(v)
    }

    pub fn read_i16(&mut self) -> (r: Result<i16, Error>)
        ensures
            final(self).bytes() == old(self).bytes(),
            reads(
                r,
                old(self).pos(),
                final(self).pos(),
                parse_i16(old(self).bytes(), old(self).pos()),
            ),
    {
        if !self.available(2) {
            return Err(Error::Io(IoError::UnexpectedEof));
        }
        let start = self.pos as usize;
        let v = le::read_i16(slice_subrange(self.inner.as_slice(), start, start + 2));
        self.pos = self.pos + 2;
        Ok(v)
    }

    pub fn read_u32(&mut self) -> (r: Result<u32, Error>)
        ensures
            final(self).bytes() == old(self).bytes(),
            reads(
                r,
                old(self).pos(),
                final(self).pos(),
                parse_u32(old(self).bytes(), old(self).pos()),
            ),
    {
        if !self.available(4) {
            return Err(Error::Io(IoError::UnexpectedEof));
        }
        let start = self.pos as usize;
        let v = le::read_u32(slice_subrange(self.inner.as_slice(), start, start + 4));
        self.pos = self.pos + 4;
        Ok(v)
    }

    pub fn read_i32(&mut self) -> (r: Result<i32, Error>)
        ensures
            final(self).bytes() == old(self).bytes(),
            reads(
                r,
                old(self).pos(),
                final(self).pos(),
                parse_i32(old(self).bytes(), old(self).pos()),
            ),
    {
        if !self.available(4) {
            return Err(Error::Io(IoError::UnexpectedEof));
        }
        let start = self.pos as usize;
        let v = le::read_i32(slice_subrange(self.inner.as_slice(), start, start + 4));
        self.pos = self.pos + 4;
        Ok(v)
    }

    pub fn read_u64(&mut self) -> (r: Result<u64, Error>)
        ensures
            final(self).bytes() == old(self).bytes(),
            reads(
                r,
                old(self).pos(),
                final(self).pos(),
                parse_u64(old(self).bytes(), old(self).pos()),
            ),
    {
        if !self.available(8) {
            return Err(Error::Io(IoError::UnexpectedEof));
        }
        let start = self.pos as usize;
        let v = le::read_u64(slice_subrange(self.inner.as_slice(), start, start + 8));
        self.pos = self.pos + 8;
        Ok(v)
    }

    pub fn read_i64(&mut self) -> (r: Result<i64, Error>)
        ensures
            final(self).bytes() == old(self).bytes(),
            reads(
                r,
                old(self).pos(),
                final(self).pos(),
                parse_i64(old(self).bytes(), old(self).pos()),
            ),
    {
        if !self.available(8) {
            return Err(Error::Io(IoError::UnexpectedEof));
        }
        let start = self.pos as usize;
        let v = le::read_i64(slice_subrange(self.inner.as_slice(), start, start + 8));
        self.pos = self.pos + 8;
        Ok(v)
    }

    /// Writes `buf` at the position: the buffer is first extended by zeros
    /// up to the position, then `buf` replaces what lies there and extends
    /// the buffer where it reaches past the end. An empty `buf` changes
    /// nothing. A chunk whose end does not fit in memory is refused.
    pub fn write_all(&mut self, buf: &[u8]) -> (r: Result<(), Error>)
        ensures
            wrote(
                r,
                old(self).bytes(),
                old(self).pos(),
                final(self).bytes(),
                final(self).pos(),
                buf@,
            ),
    {
        let n = buf.len();
        if n == 0 {
            return Ok(());
        }
        if self.pos > usize::MAX as u64 || n > usize::MAX - self.pos as usize {
            return Err(Error::Io(IoError::InvalidInput));
        }
        let p = self.pos as usize;
        let ghost before = self.inner@;
        while self.inner.len() < p
            invariant
                self.inner@.len() <= p || self.inner@ == before,
                self.inner@ == before + zeros((self.inner@.len() - before.len()) as nat),
                self.pos == p,
            decreases p - self.inner.len(),
        {
            let ghost prev = self.inner@;
            self.inner.push(0);
            assert(self.inner@ =~= before + zeros((self.inner@.len() - before.len()) as nat));
        }
        assert(self.inner@ =~= padded(before, p as int)) by {
            assert(before + zeros(0) =~= before);
        }
        let ghost base = self.inner@;
        let mut i: usize = 0;
        while i < n
            invariant
                i <= n,
                n == buf@.len(),
                p + n <= usize::MAX,
                self.pos == p,
                p <= base.len(),
                self.inner@ == write_at(base, p as int, buf@.subrange(0, i as int)),
            decreases n - i,
        {
            let ghost cur = self.inner@;
            let ghost done = buf@.subrange(0, i as int);
            let b = buf[i];
            if p + i < self.inner.len() {
                self.inner.set(p + i, b);
            } else {
                self.inner.push(b);
            }
            proof {
                assert(self.inner@ =~= write_at(cur, p + i, seq![b]));
                lemma_write_at_concat(base, p as int, done, seq![b]);
                assert(done + seq![b] =~= buf@.subrange(0, i + 1));
            }
            i = i + 1;
        }
        assert(write_at(base, p as int, buf@) =~= write_at(before, p as int, buf@));
        assert(buf@.subrange(0, n as int) =~= buf@);
        self.pos = (p + n) as u64;
        Ok(())
    }

    pub fn write_u8(&mut self, value: u8) -> (r: Result<(), Error>)
        ensures
            wrote(
                r,
                old(self).bytes(),
                old(self).pos(),
                final(self).bytes(),
                final(self).pos(),
                enc_u8(value),
            ),
    {
        let mut buf: Vec<u8> = Vec::new();
        buf.push(value);
        assert(buf@ =~= enc_u8(value));
        self.write_all(buf.as_slice())
    }

    pub fn write_i8(&mut self, value: i8) -> (r: Result<(), Error>)
        ensures
            wrote(
                r,
                old(self).bytes(),
                old(self).pos(),
                final(self).bytes(),
                final(self).pos(),
                enc_i8(value),
            ),
    {
        let mut buf: Vec<u8> = Vec::new();
        buf.push(#[verifier::truncate] (value as u8));
        assert((value as u8) as int == if value < 0 {
            value as int + 0x100
        } else {
            value as int
        }) by (bit_vector);
        assert(buf@ =~= enc_i8(value));
        self.write_all(buf.as_slice())
    }

    pub fn write_u16(&mut self, value: u16) -> (r: Result<(), Error>)
        ensures
            wrote(
                r,
                old(self).bytes(),
                old(self).pos(),
                final(self).bytes(),
                final(self).pos(),
                enc_u16(value),
            ),
    {
        let buf = le::write_u16(value);
        self.write_all(buf.as_slice())
    }

    pub fn write_i16(&mut self, value: i16) -> (r: Result<(), Error>)
        ensures
            wrote(
                r,
                old(self).bytes(),
                old(self).pos(),
                final(self).bytes(),
                final(self).pos(),
                enc_i16(value),
            ),
    {
        let buf = le::write_i16(value);
        self.write_all(buf.as_slice())
    }

    pub fn write_u32(&mut self, value: u32) -> (r: Result<(), Error>)
        ensures
            wrote(
                r,
                old(self).bytes(),
                old(self).pos(),
                final(self).bytes(),
                final(self).pos(),
                enc_u32(value),
            ),
    {
        let buf = le::write_u32(value);
        self.write_all(buf.as_slice())
    }

    pub fn write_i32(&mut self, value: i32) -> (r: Result<(), Error>)
        ensures
            wrote(
                r,
                old(self).bytes(),
                old(self).pos(),
                final(self).bytes(),
                final(self).pos(),
                enc_i32(value),
            ),
    {
        let buf = le::write_i32(value);
        self.write_all(buf.as_slice())
    }

    pub fn write_u64(&mut self, value: u64) -> (r: Result<(), Error>)
        ensures
            wrote(
                r,
                old(self).bytes(),
                old(self).pos(),
                final(self).bytes(),
                final(self).pos(),
                enc_u64(value),
            ),
    {
        let buf = le::write_u64(value);
        self.write_all(buf.as_slice())
    }

    pub fn write_i64(&mut self, value: i64) -> (r: Result<(), Error>)
        ensures
            wrote(
                r,
                old(self).bytes(),
                old(self).pos(),
                final(self).bytes(),
                final(self).pos(),
                enc_i64(value),
            ),
    {
        let buf = le::write_i64(value);
        self.write_all(buf.as_slice())
    }
}

} // verus!
