//! Writing through a stream that knows versions and names.

use crate::cursor_ext::{ser_string, string_written};
use crate::error::Error;
use crate::le::{enc_i16, enc_i32, enc_i64, enc_i8, enc_u16, enc_u32, enc_u64, enc_u8};
use crate::reader::asset_trait::{ser_fname, ser_property_guid, AssetTrait};
use crate::stream::{enc_bool, fits, wrote, wrote_with};
use crate::unreal_types::{FName, Guid};
use vstd::prelude::*;

verus! {

/// What is known after a name was written: where the name can be written
/// and fits, it stands at the old position; where it cannot be written,
/// nothing changed; where it does not fit, nothing changed either.
pub open spec fn wrote_checked(
    r: Result<(), Error>,
    old_bytes: Seq<u8>,
    old_pos: u64,
    new_bytes: Seq<u8>,
    new_pos: u64,
    chunk: Result<Seq<u8>, Error>,
) -> bool {
    match chunk {
        Ok(c) => wrote(r, old_bytes, old_pos, new_bytes, new_pos, c),
        Err(e) => r == Err::<(), Error>(e) && new_bytes == old_bytes && new_pos == old_pos,
    }
}

/// A stream to write to. No write changes the versions or the name
/// resolution. Every write of this trait happens in full or not at all.
pub trait AssetWriter: AssetTrait {
    /// Writes the identifier of a property.
    fn write_property_guid(&mut self, guid: &Option<Guid>) -> (r: Result<(), Error>)
        ensures
            final(self).env() == old(self).env(),
            wrote(
                r,
                old(self).bytes(),
                old(self).pos(),
                final(self).bytes(),
                final(self).pos(),
                ser_property_guid(old(self).env(), guid.deep_view()),
            ),
    ;

    /// Writes a name.
    fn write_fname(&mut self, name: &FName) -> (r: Result<(), Error>)
        ensures
            final(self).env() == old(self).env(),
            wrote_checked(
                r,
                old(self).bytes(),
                old(self).pos(),
                final(self).bytes(),
                final(self).pos(),
                ser_fname(old(self).env(), name.deep_view()),
            ),
    ;

    fn write_u8(&mut self, value: u8) -> (r: Result<(), Error>)
        ensures
            final(self).env() == old(self).env(),
            wrote(
                r,
                old(self).bytes(),
                old(self).pos(),
                final(self).bytes(),
                final(self).pos(),
                enc_u8(value),
            ),
    ;

    fn write_i8(&mut self, value: i8) -> (r: Result<(), Error>)
        ensures
            final(self).env() == old(self).env(),
            wrote(
                r,
                old(self).bytes(),
                old(self).pos(),
                final(self).bytes(),
                final(self).pos(),
                enc_i8(value),
            ),
    ;

    fn write_u16(&mut self, value: u16) -> (r: Result<(), Error>)
        ensures
            final(self).env() == old(self).env(),
            wrote(
                r,
                old(self).bytes(),
                old(self).pos(),
                final(self).bytes(),
                final(self).pos(),
                enc_u16(value),
            ),
    ;

    fn write_i16(&mut self, value: i16) -> (r: Result<(), Error>)
        ensures
            final(self).env() == old(self).env(),
            wrote(
                r,
                old(self).bytes(),
                old(self).pos(),
                final(self).bytes(),
                final(self).pos(),
                enc_i16(value),
            ),
    ;

    fn write_u32(&mut self, value: u32) -> (r: Result<(), Error>)
        ensures
            final(self).env() == old(self).env(),
            wrote(
                r,
                old(self).bytes(),
                old(self).pos(),
                final(self).bytes(),
                final(self).pos(),
                enc_u32(value),
            ),
    ;

    fn write_i32(&mut self, value: i32) -> (r: Result<(), Error>)
        ensures
            final(self).env() == old(self).env(),
            wrote(
                r,
                old(self).bytes(),
                old(self).pos(),
                final(self).bytes(),
                final(self).pos(),
                enc_i32(value),
            ),
    ;

    fn write_u64(&mut self, value: u64) -> (r: Result<(), Error>)
        ensures
            final(self).env() == old(self).env(),
            wrote(
                r,
                old(self).bytes(),
                old(self).pos(),
                final(self).bytes(),
                final(self).pos(),
                enc_u64(value),
            ),
    ;

    fn write_i64(&mut self, value: i64) -> (r: Result<(), Error>)
        ensures
            final(self).env() == old(self).env(),
            wrote(
                r,
                old(self).bytes(),
                old(self).pos(),
                final(self).bytes(),
                final(self).pos(),
                enc_i64(value),
            ),
    ;

    /// Writes the bit pattern of a single-precision number.
    fn write_f32(&mut self, bits: u32) -> (r: Result<(), Error>)
        ensures
            final(self).env() == old(self).env(),
            wrote(
                r,
                old(self).bytes(),
                old(self).pos(),
                final(self).bytes(),
                final(self).pos(),
                enc_u32(bits),
            ),
    ;

    /// Writes the bit pattern of a double-precision number.
    fn write_f64(&mut self, bits: u64) -> (r: Result<(), Error>)
        ensures
            final(self).env() == old(self).env(),
            wrote(
                r,
                old(self).bytes(),
                old(self).pos(),
                final(self).bytes(),
                final(self).pos(),
                enc_u64(bits),
            ),
    ;

    /// Writes a length-prefixed string and reports its count.
    fn write_string(&mut self, string: &Option<String>) -> (r: Result<usize, Error>)
        ensures
            final(self).env() == old(self).env(),
            wrote_with(
                r,
                string_written(string.deep_view()),
                old(self).bytes(),
                old(self).pos(),
                final(self).bytes(),
                final(self).pos(),
                ser_string(string.deep_view()),
            ),
    ;

    /// Writes `buf`.
    fn write_all(&mut self, buf: &[u8]) -> (r: Result<(), Error>)
        ensures
            final(self).env() == old(self).env(),
            wrote(
                r,
                old(self).bytes(),
                old(self).pos(),
                final(self).bytes(),
                final(self).pos(),
                buf@,
            ),
    ;

    /// Writes a truth value as one byte.
    fn write_bool(&mut self, value: bool) -> (r: Result<(), Error>)
        ensures
            final(self).env() == old(self).env(),
            wrote(
                r,
                old(self).bytes(),
                old(self).pos(),
                final(self).bytes(),
                final(self).pos(),
                enc_bool(value),
            ),
    ;
}

} // verus!
