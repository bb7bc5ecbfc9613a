//! Reading through a stream that knows versions and names.

use crate::cursor_ext::parse_string;
use crate::error::Error;
use crate::reader::asset_trait::{parse_fname, parse_property_guid, AssetTrait};
use crate::reader::lists::{counted, counted_items, parse_array};
use crate::stream::{
    parse_bool, parse_from, parse_i16, parse_i32, parse_i64, parse_i8, parse_many, parse_u16,
    parse_u32, parse_u64, parse_u8, reads, reads_view, take, yields_deep, Parsed,
};
use crate::unreal_types::{FName, Guid};
use vstd::prelude::*;

verus! {

/// A stream to read from. No read changes the bytes, the versions or the
/// name resolution. A read of one fixed-width value or of a run of bytes
/// that fails leaves the position where it was.
pub trait AssetReader: AssetTrait + Sized {
    /// Reads the identifier of a property.
    fn read_property_guid(&mut self) -> (r: Result<Option<Guid>, Error>)
        ensures
            final(self).bytes() == old(self).bytes(),
            final(self).env() == old(self).env(),
            yields_deep(
                r,
                final(self).pos(),
                parse_property_guid(old(self).env(), old(self).bytes(), old(self).pos()),
            ),
    ;

    /// Reads a name.
    fn read_fname(&mut self) -> (r: Result<FName, Error>)
        ensures
            final(self).bytes() == old(self).bytes(),
            final(self).env() == old(self).env(),
            yields_deep(
                r,
                final(self).pos(),
                parse_fname(old(self).env(), old(self).bytes(), old(self).pos()),
            ),
    ;

    fn read_u8(&mut self) -> (r: Result<u8, Error>)
        ensures
            final(self).bytes() == old(self).bytes(),
            final(self).env() == old(self).env(),
            reads(
                r,
                old(self).pos(),
                final(self).pos(),
                parse_u8(old(self).bytes(), old(self).pos()),
            ),
    ;

    fn read_i8(&mut self) -> (r: Result<i8, Error>)
        ensures
            final(self).bytes() == old(self).bytes(),
            final(self).env() == old(self).env(),
            reads(
                r,
                old(self).pos(),
                final(self).pos(),
                parse_i8(old(self).bytes(), old(self).pos()),
            ),
    ;

    fn read_u16(&mut self) -> (r: Result<u16, Error>)
        ensures
            final(self).bytes() == old(self).bytes(),
            final(self).env() == old(self).env(),
            reads(
                r,
                old(self).pos(),
                final(self).pos(),
                parse_u16(old(self).bytes(), old(self).pos()),
            ),
    ;

    fn read_i16(&mut self) -> (r: Result<i16, Error>)
        ensures
            final(self).bytes() == old(self).bytes(),
            final(self).env() == old(self).env(),
            reads(
                r,
                old(self).pos(),
                final(self).pos(),
                parse_i16(old(self).bytes(), old(self).pos()),
            ),
    ;

    fn read_u32(&mut self) -> (r: Result<u32, Error>)
        ensures
            final(self).bytes() == old(self).bytes(),
            final(self).env() == old(self).env(),
            reads(
                r,
                old(self).pos(),
                final(self).pos(),
                parse_u32(old(self).bytes(), old(self).pos()),
            ),
    ;

    fn read_i32(&mut self) -> (r: Result<i32, Error>)
        ensures
            final(self).bytes() == old(self).bytes(),
            final(self).env() == old(self).env(),
            reads(
                r,
                old(self).pos(),
                final(self).pos(),
                parse_i32(old(self).bytes(), old(self).pos()),
            ),
    ;

    fn read_u64(&mut self) -> (r: Result<u64, Error>)
        ensures
            final(self).bytes() == old(self).bytes(),
            final(self).env() == old(self).env(),
            reads(
                r,
                old(self).pos(),
                final(self).pos(),
                parse_u64(old(self).bytes(), old(self).pos()),
            ),
    ;

    fn read_i64(&mut self) -> (r: Result<i64, Error>)
        ensures
            final(self).bytes() == old(self).bytes(),
            final(self).env() == old(self).env(),
            reads(
                r,
                old(self).pos(),
                final(self).pos(),
                parse_i64(old(self).bytes(), old(self).pos()),
            ),
    ;

    /// Reads the four bytes of a single-precision number as its bit pattern.
    fn read_f32(&mut self) -> (r: Result<u32, Error>)
        ensures
            final(self).bytes() == old(self).bytes(),
            final(self).env() == old(self).env(),
            reads(
                r,
                old(self).pos(),
                final(self).pos(),
                parse_u32(old(self).bytes(), old(self).pos()),
            ),
    ;

    /// Reads the eight bytes of a double-precision number as its bit pattern.
    fn read_f64(&mut self) -> (r: Result<u64, Error>)
        ensures
            final(self).bytes() == old(self).bytes(),
            final(self).env() == old(self).env(),
            reads(
                r,
                old(self).pos(),
                final(self).pos(),
                parse_u64(old(self).bytes(), old(self).pos()),
            ),
    ;

    /// Reads a length-prefixed string.
    fn read_string(&mut self) -> (r: Result<Option<String>, Error>)
        ensures
            final(self).bytes() == old(self).bytes(),
            final(self).env() == old(self).env(),
            yields_deep(r, final(self).pos(), parse_string(old(self).bytes(), old(self).pos())),
    ;

    /// Reads the next `n` bytes.
    fn read_exact(&mut self, n: usize) -> (r: Result<Vec<u8>, Error>)
        ensures
            final(self).bytes() == old(self).bytes(),
            final(self).env() == old(self).env(),
            reads_view(
                r,
                old(self).pos(),
                final(self).pos(),
                take(old(self).bytes(), old(self).pos(), n as nat),
            ),
    ;

    /// Reads one byte as a truth value.
    fn read_bool(&mut self) -> (r: Result<bool, Error>)
        ensures
            final(self).bytes() == old(self).bytes(),
            final(self).env() == old(self).env(),
            reads(
                r,
                old(self).pos(),
                final(self).pos(),
                parse_bool(old(self).bytes(), old(self).pos()),
            ),
    ;

    /// Reads `length` items one behind the other, each by `getter`; none
    /// where `length` is negative. Whatever function of the position says
    /// what `getter` reads from these bytes, the items are those that it
    /// yields one behind the other, and the first error ends the read.
    #[verifier::loop_isolation(false)]
    fn read_array_with_length<T: DeepView, F: Fn(&mut Self) -> Result<T, Error>>(
        &mut self,
        length: i32,
        getter: F,
    ) -> (r: Result<Vec<T>, Error>)
        requires
            forall|a: &mut Self| getter.requires((a,)),
        ensures
            forall|f: spec_fn(u64) -> Parsed<T::V>|
                (forall|a: &mut Self, x: Result<T, Error>|
                    #[trigger] getter.ensures((a,), x) && a.bytes() == old(self).bytes() && a.env()
                        == old(self).env() ==> {
                        &&& final(a).bytes() == a.bytes()
                        &&& final(a).env() == a.env()
                        &&& yields_deep(x, final(a).pos(), f(a.pos()))
                    }) ==> {
                    &&& final(self).bytes() == old(self).bytes()
                    &&& final(self).env() == old(self).env()
                    &&& yields_deep(
                        r,
                        final(self).pos(),
                        #[trigger] parse_many(f, old(self).pos(), counted(length)),
                    )
                },
    {
        let ghost env = self.env();
        let ghost bytes = self.bytes();
        let ghost start = self.pos();
        let count = counted_items(length);
        let mut items: Vec<T> = Vec::new();
        assert(items.deep_view() =~= Seq::<T::V>::empty());
        let mut i: usize = 0;
        while i < count
            invariant
                i <= count,
                forall|f: spec_fn(u64) -> Parsed<T::V>|
                    (forall|a: &mut Self, x: Result<T, Error>|
                        #[trigger] getter.ensures((a,), x) && a.bytes() == bytes && a.env() == env
                            ==> {
                            &&& final(a).bytes() == a.bytes()
                            &&& final(a).env() == a.env()
                            &&& yields_deep(x, final(a).pos(), f(a.pos()))
                        }) ==> {
                        &&& self.bytes() == bytes
                        &&& self.env() == env
                        &&& #[trigger] parse_many(f, start, count as nat) == parse_from(
                            f,
                            self.pos(),
                            (count - i) as nat,
                            items.deep_view(),
                        )
                    },
            decreases count - i,
        {
            let ghost before = items.deep_view();
            let item = match getter(self) {
                Ok(item) => item,
                Err(e) => return Err(e),
            };
            items.push(item);
            assert(items.deep_view() =~= before.push(item.deep_view()));
            i = i + 1;
        }
        Ok(items)
    }

    /// Reads a count and as many items, each by `getter`; none where the
    /// count is negative.
    fn read_array<T: DeepView, F: Fn(&mut Self) -> Result<T, Error>>(&mut self, getter: F) -> (r:
        Result<Vec<T>, Error>)
        requires
            forall|a: &mut Self| getter.requires((a,)),
        ensures
            forall|f: spec_fn(u64) -> Parsed<T::V>|
                (forall|a: &mut Self, x: Result<T, Error>|
                    #[trigger] getter.ensures((a,), x) && a.bytes() == old(self).bytes() && a.env()
                        == old(self).env() ==> {
                        &&& final(a).bytes() == a.bytes()
                        &&& final(a).env() == a.env()
                        &&& yields_deep(x, final(a).pos(), f(a.pos()))
                    }) ==> {
                    &&& final(self).bytes() == old(self).bytes()
                    &&& final(self).env() == old(self).env()
                    &&& yields_deep(
                        r,
                        final(self).pos(),
                        #[trigger] parse_array(f, old(self).bytes(), old(self).pos()),
                    )
                },
    {
        let length = match self.read_i32() {
            Ok(length) => length,
            Err(e) => return Err(e),
        };
        self.read_array_with_length(length, getter)
    }
}

} // verus!
