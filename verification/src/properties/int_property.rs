//! Properties that hold one number or one truth value.

use crate::error::{Error, InvalidFileError, PropertyError};
use crate::le::{
    enc_i16, enc_i32, enc_i64, enc_i8, enc_u16, enc_u32, enc_u64, enc_u8, lemma_enc_dec,
};
use crate::properties::{
    guid_kept, lemma_optional_guid_round_trip, optional_guid, optional_guid_write,
    parse_optional_guid, ser_optional_guid, ScalarView,
};
use crate::reader::asset_reader::AssetReader;
use crate::reader::asset_trait::{paired, parse_property_guid, ser_property_guid, Env};
use crate::reader::asset_writer::AssetWriter;
use crate::stream::{
    emitted, enc_bool, has_at, lemma_emit, lemma_has_at_concat, parse_bool, parse_i16, parse_i32,
    parse_i64, parse_i8, parse_u16, parse_u32, parse_u64, reads, yields_deep, Parsed,
};
use crate::unreal_types::{FName, FNameView, Guid};
use vstd::prelude::*;

verus! {

/// An 8-bit signed integer.
#[derive(Clone, Debug, PartialEq, Eq, Hash)]
pub struct Int8Property {
    pub name: FName,
    pub property_guid: Option<Guid>,
    pub duplication_index: i32,
    pub value: i8,
}

impl DeepView for Int8Property {
    type V = ScalarView<i8>;

    open spec fn deep_view(&self) -> ScalarView<i8> {
        ScalarView {
            name: self.name.deep_view(),
            property_guid: self.property_guid.deep_view(),
            duplication_index: self.duplication_index,
            value: self.value,
        }
    }
}

/// The property at `pos`: its identifier, where a header is stored, and
/// its value.
pub open spec fn parse_int8_property(
    env: Env,
    bytes: Seq<u8>,
    pos: u64,
    name: FNameView,
    include_header: bool,
    duplication_index: i32,
) -> Parsed<ScalarView<i8>> {
    match parse_optional_guid(env, bytes, pos, include_header) {
        Err(e) => Err(e),
        Ok((property_guid, p)) => match parse_i8(bytes, p) {
            Err(e) => Err(e),
            Ok((value, q)) => Ok((ScalarView { name, property_guid, duplication_index, value }, q)),
        },
    }
}

/// The bytes of the property on disk.
pub open spec fn ser_int8_property(env: Env, v: ScalarView<i8>, include_header: bool) -> Seq<u8> {
    ser_optional_guid(env, v.property_guid, include_header) + enc_i8(v.value)
}

impl Int8Property {
    /// Reads the property. The declared length is not consulted.
    pub fn new<Reader: AssetReader>(
        asset: &mut Reader,
        name: FName,
        include_header: bool,
        _length: i64,
        duplication_index: i32,
    ) -> (r: Result<Int8Property, Error>)
        ensures
            final(asset).bytes() == old(asset).bytes(),
            final(asset).env() == old(asset).env(),
            yields_deep(
                r,
                final(asset).pos(),
                parse_int8_property(
                    old(asset).env(),
                    old(asset).bytes(),
                    old(asset).pos(),
                    name.deep_view(),
                    include_header,
                    duplication_index,
                ),
            ),
    {
        let property_guid = match optional_guid(asset, include_header) {
            Ok(guid) => guid,
            Err(e) => return Err(e),
        };
        let value = match asset.read_i8() {
            Ok(value) => value,
            Err(e) => return Err(e),
        };
        Ok(Int8Property { name, property_guid, duplication_index, value })
    }

    /// Writes the property and reports the width of its value.
    pub fn write<Writer: AssetWriter>(
        &self,
        asset: &mut Writer,
        include_header: bool,
    ) -> (r: Result<usize, Error>)
        ensures
            final(asset).env() == old(asset).env(),
            emitted(
                r,
                1usize,
                old(asset).bytes(),
                old(asset).pos(),
                final(asset).bytes(),
                final(asset).pos(),
                ser_int8_property(old(asset).env(), self.deep_view(), include_header),
            ),
    {
        let ghost origin = asset.bytes();
        let ghost start = asset.pos();
        let ghost head = ser_optional_guid(
            asset.env(),
            self.property_guid.deep_view(),
            include_header,
        );
        let first = optional_guid_write(asset, &self.property_guid, include_header);
        proof {
            lemma_emit(
                first,
                origin,
                start,
                Seq::empty(),
                head,
                origin,
                start,
                asset.bytes(),
                asset.pos(),
            );
            assert(Seq::<u8>::empty() + head =~= head);
        }
        if let Err(e) = first {
            return Err(e);
        }
        let ghost mid = asset.bytes();
        let ghost at = asset.pos();
        let second = asset.write_i8(self.value);
        proof {
            lemma_emit(
                second,
                origin,
                start,
                head,
                enc_i8(self.value),
                mid,
                at,
                asset.bytes(),
                asset.pos(),
            );
        }
        match second {
            Ok(()) => Ok(1),
            Err(e) => Err(e),
        }
    }
}

/// A property that was written is read back.
pub proof fn lemma_int8_property_round_trip(
    reading: Env,
    writing: Env,
    bytes: Seq<u8>,
    pos: u64,
    v: ScalarView<i8>,
    include_header: bool,
)
    requires
        paired(reading, writing),
        bytes.len() <= u64::MAX,
        has_at(bytes, pos as int, ser_int8_property(writing, v, include_header)),
        guid_kept(writing, v.property_guid, include_header),
    ensures
        parse_int8_property(
            reading,
            bytes,
            pos,
            v.name,
            include_header,
            v.duplication_index,
        ) == Ok::<
            (ScalarView<i8>, u64),
            Error,
        >((v, (pos + ser_int8_property(writing, v, include_header).len()) as u64)),
{
    lemma_enc_dec();
    let head = ser_optional_guid(writing, v.property_guid, include_header);
    lemma_has_at_concat(bytes, pos as int, head, enc_i8(v.value));
    lemma_optional_guid_round_trip(reading, writing, bytes, pos, v.property_guid, include_header);
}

/// A 32-bit signed integer.
#[derive(Clone, Debug, PartialEq, Eq, Hash)]
pub struct IntProperty {
    pub name: FName,
    pub property_guid: Option<Guid>,
    pub duplication_index: i32,
    pub value: i32,
}

impl DeepView for IntProperty {
    type V = ScalarView<i32>;

    open spec fn deep_view(&self) -> ScalarView<i32> {
        ScalarView {
            name: self.name.deep_view(),
            property_guid: self.property_guid.deep_view(),
            duplication_index: self.duplication_index,
            value: self.value,
        }
    }
}

/// The property at `pos`: its identifier, where a header is stored, and
/// its value.
pub open spec fn parse_int_property(
    env: Env,
    bytes: Seq<u8>,
    pos: u64,
    name: FNameView,
    include_header: bool,
    duplication_index: i32,
) -> Parsed<ScalarView<i32>> {
    match parse_optional_guid(env, bytes, pos, include_header) {
        Err(e) => Err(e),
        Ok((property_guid, p)) => match parse_i32(bytes, p) {
            Err(e) => Err(e),
            Ok((value, q)) => Ok((ScalarView { name, property_guid, duplication_index, value }, q)),
        },
    }
}

/// The bytes of the property on disk.
pub open spec fn ser_int_property(env: Env, v: ScalarView<i32>, include_header: bool) -> Seq<u8> {
    ser_optional_guid(env, v.property_guid, include_header) + enc_i32(v.value)
}

impl IntProperty {
    /// Reads the property. The declared length is not consulted.
    pub fn new<Reader: AssetReader>(
        asset: &mut Reader,
        name: FName,
        include_header: bool,
        _length: i64,
        duplication_index: i32,
    ) -> (r: Result<IntProperty, Error>)
        ensures
            final(asset).bytes() == old(asset).bytes(),
            final(asset).env() == old(asset).env(),
            yields_deep(
                r,
                final(asset).pos(),
                parse_int_property(
                    old(asset).env(),
                    old(asset).bytes(),
                    old(asset).pos(),
                    name.deep_view(),
                    include_header,
                    duplication_index,
                ),
            ),
    {
        let property_guid = match optional_guid(asset, include_header) {
            Ok(guid) => guid,
            Err(e) => return Err(e),
        };
        let value = match asset.read_i32() {
            Ok(value) => value,
            Err(e) => return Err(e),
        };
        Ok(IntProperty { name, property_guid, duplication_index, value })
    }

    /// Writes the property and reports the width of its value.
    pub fn write<Writer: AssetWriter>(
        &self,
        asset: &mut Writer,
        include_header: bool,
    ) -> (r: Result<usize, Error>)
        ensures
            final(asset).env() == old(asset).env(),
            emitted(
                r,
                4usize,
                old(asset).bytes(),
                old(asset).pos(),
                final(asset).bytes(),
                final(asset).pos(),
                ser_int_property(old(asset).env(), self.deep_view(), include_header),
            ),
    {
        let ghost origin = asset.bytes();
        let ghost start = asset.pos();
        let ghost head = ser_optional_guid(
            asset.env(),
            self.property_guid.deep_view(),
            include_header,
        );
        let first = optional_guid_write(asset, &self.property_guid, include_header);
        proof {
            lemma_emit(
                first,
                origin,
                start,
                Seq::empty(),
                head,
                origin,
                start,
                asset.bytes(),
                asset.pos(),
            );
            assert(Seq::<u8>::empty() + head =~= head);
        }
        if let Err(e) = first {
            return Err(e);
        }
        let ghost mid = asset.bytes();
        let ghost at = asset.pos();
        let second = asset.write_i32(self.value);
        proof {
            lemma_emit(
                second,
                origin,
                start,
                head,
                enc_i32(self.value),
                mid,
                at,
                asset.bytes(),
                asset.pos(),
            );
        }
        match second {
            Ok(()) => Ok(4),
            Err(e) => Err(e),
        }
    }
}

/// A property that was written is read back.
pub proof fn lemma_int_property_round_trip(
    reading: Env,
    writing: Env,
    bytes: Seq<u8>,
    pos: u64,
    v: ScalarView<i32>,
    include_header: bool,
)
    requires
        paired(reading, writing),
        bytes.len() <= u64::MAX,
        has_at(bytes, pos as int, ser_int_property(writing, v, include_header)),
        guid_kept(writing, v.property_guid, include_header),
    ensures
        parse_int_property(
            reading,
            bytes,
            pos,
            v.name,
            include_header,
            v.duplication_index,
        ) == Ok::<
            (ScalarView<i32>, u64),
            Error,
        >((v, (pos + ser_int_property(writing, v, include_header).len()) as u64)),
{
    lemma_enc_dec();
    let head = ser_optional_guid(writing, v.property_guid, include_header);
    lemma_has_at_concat(bytes, pos as int, head, enc_i32(v.value));
    lemma_optional_guid_round_trip(reading, writing, bytes, pos, v.property_guid, include_header);
}

/// A 16-bit signed integer.
#[derive(Clone, Debug, PartialEq, Eq, Hash)]
pub struct Int16Property {
    pub name: FName,
    pub property_guid: Option<Guid>,
    pub duplication_index: i32,
    pub value: i16,
}

impl DeepView for Int16Property {
    type V = ScalarView<i16>;

    open spec fn deep_view(&self) -> ScalarView<i16> {
        ScalarView {
            name: self.name.deep_view(),
            property_guid: self.property_guid.deep_view(),
            duplication_index: self.duplication_index,
            value: self.value,
        }
    }
}

/// The property at `pos`: its identifier, where a header is stored, and
/// its value.
pub open spec fn parse_int16_property(
    env: Env,
    bytes: Seq<u8>,
    pos: u64,
    name: FNameView,
    include_header: bool,
    duplication_index: i32,
) -> Parsed<ScalarView<i16>> {
    match parse_optional_guid(env, bytes, pos, include_header) {
        Err(e) => Err(e),
        Ok((property_guid, p)) => match parse_i16(bytes, p) {
            Err(e) => Err(e),
            Ok((value, q)) => Ok((ScalarView { name, property_guid, duplication_index, value }, q)),
        },
    }
}

/// The bytes of the property on disk.
pub open spec fn ser_int16_property(env: Env, v: ScalarView<i16>, include_header: bool) -> Seq<u8> {
    ser_optional_guid(env, v.property_guid, include_header) + enc_i16(v.value)
}

impl Int16Property {
    /// Reads the property. The declared length is not consulted.
    pub fn new<Reader: AssetReader>(
        asset: &mut Reader,
        name: FName,
        include_header: bool,
        _length: i64,
        duplication_index: i32,
    ) -> (r: Result<Int16Property, Error>)
        ensures
            final(asset).bytes() == old(asset).bytes(),
            final(asset).env() == old(asset).env(),
            yields_deep(
                r,
                final(asset).pos(),
                parse_int16_property(
                    old(asset).env(),
                    old(asset).bytes(),
                    old(asset).pos(),
                    name.deep_view(),
                    include_header,
                    duplication_index,
                ),
            ),
    {
        let property_guid = match optional_guid(asset, include_header) {
            Ok(guid) => guid,
            Err(e) => return Err(e),
        };
        let value = match asset.read_i16() {
            Ok(value) => value,
            Err(e) => return Err(e),
        };
        Ok(Int16Property { name, property_guid, duplication_index, value })
    }

    /// Writes the property and reports the width of its value.
    pub fn write<Writer: AssetWriter>(
        &self,
        asset: &mut Writer,
        include_header: bool,
    ) -> (r: Result<usize, Error>)
        ensures
            final(asset).env() == old(asset).env(),
            emitted(
                r,
                2usize,
                old(asset).bytes(),
                old(asset).pos(),
                final(asset).bytes(),
                final(asset).pos(),
                ser_int16_property(old(asset).env(), self.deep_view(), include_header),
            ),
    {
        let ghost origin = asset.bytes();
        let ghost start = asset.pos();
        let ghost head = ser_optional_guid(
            asset.env(),
            self.property_guid.deep_view(),
            include_header,
        );
        let first = optional_guid_write(asset, &self.property_guid, include_header);
        proof {
            lemma_emit(
                first,
                origin,
                start,
                Seq::empty(),
                head,
                origin,
                start,
                asset.bytes(),
                asset.pos(),
            );
            assert(Seq::<u8>::empty() + head =~= head);
        }
        if let Err(e) = first {
            return Err(e);
        }
        let ghost mid = asset.bytes();
        let ghost at = asset.pos();
        let second = asset.write_i16(self.value);
        proof {
            lemma_emit(
                second,
                origin,
                start,
                head,
                enc_i16(self.value),
                mid,
                at,
                asset.bytes(),
                asset.pos(),
            );
        }
        match second {
            Ok(()) => Ok(2),
            Err(e) => Err(e),
        }
    }
}

/// A property that was written is read back.
pub proof fn lemma_int16_property_round_trip(
    reading: Env,
    writing: Env,
    bytes: Seq<u8>,
    pos: u64,
    v: ScalarView<i16>,
    include_header: bool,
)
    requires
        paired(reading, writing),
        bytes.len() <= u64::MAX,
        has_at(bytes, pos as int, ser_int16_property(writing, v, include_header)),
        guid_kept(writing, v.property_guid, include_header),
    ensures
        parse_int16_property(
            reading,
            bytes,
            pos,
            v.name,
            include_header,
            v.duplication_index,
        ) == Ok::<
            (ScalarView<i16>, u64),
            Error,
        >((v, (pos + ser_int16_property(writing, v, include_header).len()) as u64)),
{
    lemma_enc_dec();
    let head = ser_optional_guid(writing, v.property_guid, include_header);
    lemma_has_at_concat(bytes, pos as int, head, enc_i16(v.value));
    lemma_optional_guid_round_trip(reading, writing, bytes, pos, v.property_guid, include_header);
}

/// A 64-bit signed integer.
#[derive(Clone, Debug, PartialEq, Eq, Hash)]
pub struct Int64Property {
    pub name: FName,
    pub property_guid: Option<Guid>,
    pub duplication_index: i32,
    pub value: i64,
}

impl DeepView for Int64Property {
    type V = ScalarView<i64>;

    open spec fn deep_view(&self) -> ScalarView<i64> {
        ScalarView {
            name: self.name.deep_view(),
            property_guid: self.property_guid.deep_view(),
            duplication_index: self.duplication_index,
            value: self.value,
        }
    }
}

/// The property at `pos`: its identifier, where a header is stored, and
/// its value.
pub open spec fn parse_int64_property(
    env: Env,
    bytes: Seq<u8>,
    pos: u64,
    name: FNameView,
    include_header: bool,
    duplication_index: i32,
) -> Parsed<ScalarView<i64>> {
    match parse_optional_guid(env, bytes, pos, include_header) {
        Err(e) => Err(e),
        Ok((property_guid, p)) => match parse_i64(bytes, p) {
            Err(e) => Err(e),
            Ok((value, q)) => Ok((ScalarView { name, property_guid, duplication_index, value }, q)),
        },
    }
}

/// The bytes of the property on disk.
pub open spec fn ser_int64_property(env: Env, v: ScalarView<i64>, include_header: bool) -> Seq<u8> {
    ser_optional_guid(env, v.property_guid, include_header) + enc_i64(v.value)
}

impl Int64Property {
    /// Reads the property. The declared length is not consulted.
    pub fn new<Reader: AssetReader>(
        asset: &mut Reader,
        name: FName,
        include_header: bool,
        _length: i64,
        duplication_index: i32,
    ) -> (r: Result<Int64Property, Error>)
        ensures
            final(asset).bytes() == old(asset).bytes(),
            final(asset).env() == old(asset).env(),
            yields_deep(
                r,
                final(asset).pos(),
                parse_int64_property(
                    old(asset).env(),
                    old(asset).bytes(),
                    old(asset).pos(),
                    name.deep_view(),
                    include_header,
                    duplication_index,
                ),
            ),
    {
        let property_guid = match optional_guid(asset, include_header) {
            Ok(guid) => guid,
            Err(e) => return Err(e),
        };
        let value = match asset.read_i64() {
            Ok(value) => value,
            Err(e) => return Err(e),
        };
        Ok(Int64Property { name, property_guid, duplication_index, value })
    }

    /// Writes the property and reports the width of its value.
    pub fn write<Writer: AssetWriter>(
        &self,
        asset: &mut Writer,
        include_header: bool,
    ) -> (r: Result<usize, Error>)
        ensures
            final(asset).env() == old(asset).env(),
            emitted(
                r,
                8usize,
                old(asset).bytes(),
                old(asset).pos(),
                final(asset).bytes(),
                final(asset).pos(),
                ser_int64_property(old(asset).env(), self.deep_view(), include_header),
            ),
    {
        let ghost origin = asset.bytes();
        let ghost start = asset.pos();
        let ghost head = ser_optional_guid(
            asset.env(),
            self.property_guid.deep_view(),
            include_header,
        );
        let first = optional_guid_write(asset, &self.property_guid, include_header);
        proof {
            lemma_emit(
                first,
                origin,
                start,
                Seq::empty(),
                head,
                origin,
                start,
                asset.bytes(),
                asset.pos(),
            );
            assert(Seq::<u8>::empty() + head =~= head);
        }
        if let Err(e) = first {
            return Err(e);
        }
        let ghost mid = asset.bytes();
        let ghost at = asset.pos();
        let second = asset.write_i64(self.value);
        proof {
            lemma_emit(
                second,
                origin,
                start,
                head,
                enc_i64(self.value),
                mid,
                at,
                asset.bytes(),
                asset.pos(),
            );
        }
        match second {
            Ok(()) => Ok(8),
            Err(e) => Err(e),
        }
    }
}

/// A property that was written is read back.
pub proof fn lemma_int64_property_round_trip(
    reading: Env,
    writing: Env,
    bytes: Seq<u8>,
    pos: u64,
    v: ScalarView<i64>,
    include_header: bool,
)
    requires
        paired(reading, writing),
        bytes.len() <= u64::MAX,
        has_at(bytes, pos as int, ser_int64_property(writing, v, include_header)),
        guid_kept(writing, v.property_guid, include_header),
    ensures
        parse_int64_property(
            reading,
            bytes,
            pos,
            v.name,
            include_header,
            v.duplication_index,
        ) == Ok::<
            (ScalarView<i64>, u64),
            Error,
        >((v, (pos + ser_int64_property(writing, v, include_header).len()) as u64)),
{
    lemma_enc_dec();
    let head = ser_optional_guid(writing, v.property_guid, include_header);
    lemma_has_at_concat(bytes, pos as int, head, enc_i64(v.value));
    lemma_optional_guid_round_trip(reading, writing, bytes, pos, v.property_guid, include_header);
}

/// A 16-bit unsigned integer.
#[derive(Clone, Debug, PartialEq, Eq, Hash)]
pub struct UInt16Property {
    pub name: FName,
    pub property_guid: Option<Guid>,
    pub duplication_index: i32,
    pub value: u16,
}

impl DeepView for UInt16Property {
    type V = ScalarView<u16>;

    open spec fn deep_view(&self) -> ScalarView<u16> {
        ScalarView {
            name: self.name.deep_view(),
            property_guid: self.property_guid.deep_view(),
            duplication_index: self.duplication_index,
            value: self.value,
        }
    }
}

/// The property at `pos`: its identifier, where a header is stored, and
/// its value.
pub open spec fn parse_uint16_property(
    env: Env,
    bytes: Seq<u8>,
    pos: u64,
    name: FNameView,
    include_header: bool,
    duplication_index: i32,
) -> Parsed<ScalarView<u16>> {
    match parse_optional_guid(env, bytes, pos, include_header) {
        Err(e) => Err(e),
        Ok((property_guid, p)) => match parse_u16(bytes, p) {
            Err(e) => Err(e),
            Ok((value, q)) => Ok((ScalarView { name, property_guid, duplication_index, value }, q)),
        },
    }
}

/// The bytes of the property on disk.
pub open spec fn ser_uint16_property(
    env: Env,
    v: ScalarView<u16>,
    include_header: bool,
) -> Seq<u8> {
    ser_optional_guid(env, v.property_guid, include_header) + enc_u16(v.value)
}

impl UInt16Property {
    /// Reads the property. The declared length is not consulted.
    pub fn new<Reader: AssetReader>(
        asset: &mut Reader,
        name: FName,
        include_header: bool,
        _length: i64,
        duplication_index: i32,
    ) -> (r: Result<UInt16Property, Error>)
        ensures
            final(asset).bytes() == old(asset).bytes(),
            final(asset).env() == old(asset).env(),
            yields_deep(
                r,
                final(asset).pos(),
                parse_uint16_property(
                    old(asset).env(),
                    old(asset).bytes(),
                    old(asset).pos(),
                    name.deep_view(),
                    include_header,
                    duplication_index,
                ),
            ),
    {
        let property_guid = match optional_guid(asset, include_header) {
            Ok(guid) => guid,
            Err(e) => return Err(e),
        };
        let value = match asset.read_u16() {
            Ok(value) => value,
            Err(e) => return Err(e),
        };
        Ok(UInt16Property { name, property_guid, duplication_index, value })
    }

    /// Writes the property and reports the width of its value.
    pub fn write<Writer: AssetWriter>(
        &self,
        asset: &mut Writer,
        include_header: bool,
    ) -> (r: Result<usize, Error>)
        ensures
            final(asset).env() == old(asset).env(),
            emitted(
                r,
                2usize,
                old(asset).bytes(),
                old(asset).pos(),
                final(asset).bytes(),
                final(asset).pos(),
                ser_uint16_property(old(asset).env(), self.deep_view(), include_header),
            ),
    {
        let ghost origin = asset.bytes();
        let ghost start = asset.pos();
        let ghost head = ser_optional_guid(
            asset.env(),
            self.property_guid.deep_view(),
            include_header,
        );
        let first = optional_guid_write(asset, &self.property_guid, include_header);
        proof {
            lemma_emit(
                first,
                origin,
                start,
                Seq::empty(),
                head,
                origin,
                start,
                asset.bytes(),
                asset.pos(),
            );
            assert(Seq::<u8>::empty() + head =~= head);
        }
        if let Err(e) = first {
            return Err(e);
        }
        let ghost mid = asset.bytes();
        let ghost at = asset.pos();
        let second = asset.write_u16(self.value);
        proof {
            lemma_emit(
                second,
                origin,
                start,
                head,
                enc_u16(self.value),
                mid,
                at,
                asset.bytes(),
                asset.pos(),
            );
        }
        match second {
            Ok(()) => Ok(2),
            Err(e) => Err(e),
        }
    }
}

/// A property that was written is read back.
pub proof fn lemma_uint16_property_round_trip(
    reading: Env,
    writing: Env,
    bytes: Seq<u8>,
    pos: u64,
    v: ScalarView<u16>,
    include_header: bool,
)
    requires
        paired(reading, writing),
        bytes.len() <= u64::MAX,
        has_at(bytes, pos as int, ser_uint16_property(writing, v, include_header)),
        guid_kept(writing, v.property_guid, include_header),
    ensures
        parse_uint16_property(
            reading,
            bytes,
            pos,
            v.name,
            include_header,
            v.duplication_index,
        ) == Ok::<
            (ScalarView<u16>, u64),
            Error,
        >((v, (pos + ser_uint16_property(writing, v, include_header).len()) as u64)),
{
    lemma_enc_dec();
    let head = ser_optional_guid(writing, v.property_guid, include_header);
    lemma_has_at_concat(bytes, pos as int, head, enc_u16(v.value));
    lemma_optional_guid_round_trip(reading, writing, bytes, pos, v.property_guid, include_header);
}

/// A 32-bit unsigned integer.
#[derive(Clone, Debug, PartialEq, Eq, Hash)]
pub struct UInt32Property {
    pub name: FName,
    pub property_guid: Option<Guid>,
    pub duplication_index: i32,
    pub value: u32,
}

impl DeepView for UInt32Property {
    type V = ScalarView<u32>;

    open spec fn deep_view(&self) -> ScalarView<u32> {
        ScalarView {
            name: self.name.deep_view(),
            property_guid: self.property_guid.deep_view(),
            duplication_index: self.duplication_index,
            value: self.value,
        }
    }
}

/// The property at `pos`: its identifier, where a header is stored, and
/// its value.
pub open spec fn parse_uint32_property(
    env: Env,
    bytes: Seq<u8>,
    pos: u64,
    name: FNameView,
    include_header: bool,
    duplication_index: i32,
) -> Parsed<ScalarView<u32>> {
    match parse_optional_guid(env, bytes, pos, include_header) {
        Err(e) => Err(e),
        Ok((property_guid, p)) => match parse_u32(bytes, p) {
            Err(e) => Err(e),
            Ok((value, q)) => Ok((ScalarView { name, property_guid, duplication_index, value }, q)),
        },
    }
}

/// The bytes of the property on disk.
pub open spec fn ser_uint32_property(
    env: Env,
    v: ScalarView<u32>,
    include_header: bool,
) -> Seq<u8> {
    ser_optional_guid(env, v.property_guid, include_header) + enc_u32(v.value)
}

impl UInt32Property {
    /// Reads the property. The declared length is not consulted.
    pub fn new<Reader: AssetReader>(
        asset: &mut Reader,
        name: FName,
        include_header: bool,
        _length: i64,
        duplication_index: i32,
    ) -> (r: Result<UInt32Property, Error>)
        ensures
            final(asset).bytes() == old(asset).bytes(),
            final(asset).env() == old(asset).env(),
            yields_deep(
                r,
                final(asset).pos(),
                parse_uint32_property(
                    old(asset).env(),
                    old(asset).bytes(),
                    old(asset).pos(),
                    name.deep_view(),
                    include_header,
                    duplication_index,
                ),
            ),
    {
        let property_guid = match optional_guid(asset, include_header) {
            Ok(guid) => guid,
            Err(e) => return Err(e),
        };
        let value = match asset.read_u32() {
            Ok(value) => value,
            Err(e) => return Err(e),
        };
        Ok(UInt32Property { name, property_guid, duplication_index, value })
    }

    /// Writes the property and reports the width of its value.
    pub fn write<Writer: AssetWriter>(
        &self,
        asset: &mut Writer,
        include_header: bool,
    ) -> (r: Result<usize, Error>)
        ensures
            final(asset).env() == old(asset).env(),
            emitted(
                r,
                4usize,
                old(asset).bytes(),
                old(asset).pos(),
                final(asset).bytes(),
                final(asset).pos(),
                ser_uint32_property(old(asset).env(), self.deep_view(), include_header),
            ),
    {
        let ghost origin = asset.bytes();
        let ghost start = asset.pos();
        let ghost head = ser_optional_guid(
            asset.env(),
            self.property_guid.deep_view(),
            include_header,
        );
        let first = optional_guid_write(asset, &self.property_guid, include_header);
        proof {
            lemma_emit(
                first,
                origin,
                start,
                Seq::empty(),
                head,
                origin,
                start,
                asset.bytes(),
                asset.pos(),
            );
            assert(Seq::<u8>::empty() + head =~= head);
        }
        if let Err(e) = first {
            return Err(e);
        }
        let ghost mid = asset.bytes();
        let ghost at = asset.pos();
        let second = asset.write_u32(self.value);
        proof {
            lemma_emit(
                second,
                origin,
                start,
                head,
                enc_u32(self.value),
                mid,
                at,
                asset.bytes(),
                asset.pos(),
            );
        }
        match second {
            Ok(()) => Ok(4),
            Err(e) => Err(e),
        }
    }
}

/// A property that was written is read back.
pub proof fn lemma_uint32_property_round_trip(
    reading: Env,
    writing: Env,
    bytes: Seq<u8>,
    pos: u64,
    v: ScalarView<u32>,
    include_header: bool,
)
    requires
        paired(reading, writing),
        bytes.len() <= u64::MAX,
        has_at(bytes, pos as int, ser_uint32_property(writing, v, include_header)),
        guid_kept(writing, v.property_guid, include_header),
    ensures
        parse_uint32_property(
            reading,
            bytes,
            pos,
            v.name,
            include_header,
            v.duplication_index,
        ) == Ok::<
            (ScalarView<u32>, u64),
            Error,
        >((v, (pos + ser_uint32_property(writing, v, include_header).len()) as u64)),
{
    lemma_enc_dec();
    let head = ser_optional_guid(writing, v.property_guid, include_header);
    lemma_has_at_concat(bytes, pos as int, head, enc_u32(v.value));
    lemma_optional_guid_round_trip(reading, writing, bytes, pos, v.property_guid, include_header);
}

/// A 64-bit unsigned integer.
#[derive(Clone, Debug, PartialEq, Eq, Hash)]
pub struct UInt64Property {
    pub name: FName,
    pub property_guid: Option<Guid>,
    pub duplication_index: i32,
    pub value: u64,
}

impl DeepView for UInt64Property {
    type V = ScalarView<u64>;

    open spec fn deep_view(&self) -> ScalarView<u64> {
        ScalarView {
            name: self.name.deep_view(),
            property_guid: self.property_guid.deep_view(),
            duplication_index: self.duplication_index,
            value: self.value,
        }
    }
}

/// The property at `pos`: its identifier, where a header is stored, and
/// its value.
pub open spec fn parse_uint64_property(
    env: Env,
    bytes: Seq<u8>,
    pos: u64,
    name: FNameView,
    include_header: bool,
    duplication_index: i32,
) -> Parsed<ScalarView<u64>> {
    match parse_optional_guid(env, bytes, pos, include_header) {
        Err(e) => Err(e),
        Ok((property_guid, p)) => match parse_u64(bytes, p) {
            Err(e) => Err(e),
            Ok((value, q)) => Ok((ScalarView { name, property_guid, duplication_index, value }, q)),
        },
    }
}

/// The bytes of the property on disk.
pub open spec fn ser_uint64_property(
    env: Env,
    v: ScalarView<u64>,
    include_header: bool,
) -> Seq<u8> {
    ser_optional_guid(env, v.property_guid, include_header) + enc_u64(v.value)
}

impl UInt64Property {
    /// Reads the property. The declared length is not consulted.
    pub fn new<Reader: AssetReader>(
        asset: &mut Reader,
        name: FName,
        include_header: bool,
        _length: i64,
        duplication_index: i32,
    ) -> (r: Result<UInt64Property, Error>)
        ensures
            final(asset).bytes() == old(asset).bytes(),
            final(asset).env() == old(asset).env(),
            yields_deep(
                r,
                final(asset).pos(),
                parse_uint64_property(
                    old(asset).env(),
                    old(asset).bytes(),
                    old(asset).pos(),
                    name.deep_view(),
                    include_header,
                    duplication_index,
                ),
            ),
    {
        let property_guid = match optional_guid(asset, include_header) {
            Ok(guid) => guid,
            Err(e) => return Err(e),
        };
        let value = match asset.read_u64() {
            Ok(value) => value,
            Err(e) => return Err(e),
        };
        Ok(UInt64Property { name, property_guid, duplication_index, value })
    }

    /// Writes the property and reports the width of its value.
    pub fn write<Writer: AssetWriter>(
        &self,
        asset: &mut Writer,
        include_header: bool,
    ) -> (r: Result<usize, Error>)
        ensures
            final(asset).env() == old(asset).env(),
            emitted(
                r,
                8usize,
                old(asset).bytes(),
                old(asset).pos(),
                final(asset).bytes(),
                final(asset).pos(),
                ser_uint64_property(old(asset).env(), self.deep_view(), include_header),
            ),
    {
        let ghost origin = asset.bytes();
        let ghost start = asset.pos();
        let ghost head = ser_optional_guid(
            asset.env(),
            self.property_guid.deep_view(),
            include_header,
        );
        let first = optional_guid_write(asset, &self.property_guid, include_header);
        proof {
            lemma_emit(
                first,
                origin,
                start,
                Seq::empty(),
                head,
                origin,
                start,
                asset.bytes(),
                asset.pos(),
            );
            assert(Seq::<u8>::empty() + head =~= head);
        }
        if let Err(e) = first {
            return Err(e);
        }
        let ghost mid = asset.bytes();
        let ghost at = asset.pos();
        let second = asset.write_u64(self.value);
        proof {
            lemma_emit(
                second,
                origin,
                start,
                head,
                enc_u64(self.value),
                mid,
                at,
                asset.bytes(),
                asset.pos(),
            );
        }
        match second {
            Ok(()) => Ok(8),
            Err(e) => Err(e),
        }
    }
}

/// A property that was written is read back.
pub proof fn lemma_uint64_property_round_trip(
    reading: Env,
    writing: Env,
    bytes: Seq<u8>,
    pos: u64,
    v: ScalarView<u64>,
    include_header: bool,
)
    requires
        paired(reading, writing),
        bytes.len() <= u64::MAX,
        has_at(bytes, pos as int, ser_uint64_property(writing, v, include_header)),
        guid_kept(writing, v.property_guid, include_header),
    ensures
        parse_uint64_property(
            reading,
            bytes,
            pos,
            v.name,
            include_header,
            v.duplication_index,
        ) == Ok::<
            (ScalarView<u64>, u64),
            Error,
        >((v, (pos + ser_uint64_property(writing, v, include_header).len()) as u64)),
{
    lemma_enc_dec();
    let head = ser_optional_guid(writing, v.property_guid, include_header);
    lemma_has_at_concat(bytes, pos as int, head, enc_u64(v.value));
    lemma_optional_guid_round_trip(reading, writing, bytes, pos, v.property_guid, include_header);
}

/// A single-precision number, held as its bit pattern.
#[derive(Clone, Debug, PartialEq, Eq, Hash)]
pub struct FloatProperty {
    pub name: FName,
    pub property_guid: Option<Guid>,
    pub duplication_index: i32,
    pub value: u32,
}

impl DeepView for FloatProperty {
    type V = ScalarView<u32>;

    open spec fn deep_view(&self) -> ScalarView<u32> {
        ScalarView {
            name: self.name.deep_view(),
            property_guid: self.property_guid.deep_view(),
            duplication_index: self.duplication_index,
            value: self.value,
        }
    }
}

/// The property at `pos`: its identifier, where a header is stored, and
/// its value.
pub open spec fn parse_float_property(
    env: Env,
    bytes: Seq<u8>,
    pos: u64,
    name: FNameView,
    include_header: bool,
    duplication_index: i32,
) -> Parsed<ScalarView<u32>> {
    match parse_optional_guid(env, bytes, pos, include_header) {
        Err(e) => Err(e),
        Ok((property_guid, p)) => match parse_u32(bytes, p) {
            Err(e) => Err(e),
            Ok((value, q)) => Ok((ScalarView { name, property_guid, duplication_index, value }, q)),
        },
    }
}

/// The bytes of the property on disk.
pub open spec fn ser_float_property(env: Env, v: ScalarView<u32>, include_header: bool) -> Seq<u8> {
    ser_optional_guid(env, v.property_guid, include_header) + enc_u32(v.value)
}

impl FloatProperty {
    /// Reads the property. The declared length is not consulted.
    pub fn new<Reader: AssetReader>(
        asset: &mut Reader,
        name: FName,
        include_header: bool,
        _length: i64,
        duplication_index: i32,
    ) -> (r: Result<FloatProperty, Error>)
        ensures
            final(asset).bytes() == old(asset).bytes(),
            final(asset).env() == old(asset).env(),
            yields_deep(
                r,
                final(asset).pos(),
                parse_float_property(
                    old(asset).env(),
                    old(asset).bytes(),
                    old(asset).pos(),
                    name.deep_view(),
                    include_header,
                    duplication_index,
                ),
            ),
    {
        let property_guid = match optional_guid(asset, include_header) {
            Ok(guid) => guid,
            Err(e) => return Err(e),
        };
        let value = match asset.read_f32() {
            Ok(value) => value,
            Err(e) => return Err(e),
        };
        Ok(FloatProperty { name, property_guid, duplication_index, value })
    }

    /// Writes the property and reports the width of its value.
    pub fn write<Writer: AssetWriter>(
        &self,
        asset: &mut Writer,
        include_header: bool,
    ) -> (r: Result<usize, Error>)
        ensures
            final(asset).env() == old(asset).env(),
            emitted(
                r,
                4usize,
                old(asset).bytes(),
                old(asset).pos(),
                final(asset).bytes(),
                final(asset).pos(),
                ser_float_property(old(asset).env(), self.deep_view(), include_header),
            ),
    {
        let ghost origin = asset.bytes();
        let ghost start = asset.pos();
        let ghost head = ser_optional_guid(
            asset.env(),
            self.property_guid.deep_view(),
            include_header,
        );
        let first = optional_guid_write(asset, &self.property_guid, include_header);
        proof {
            lemma_emit(
                first,
                origin,
                start,
                Seq::empty(),
                head,
                origin,
                start,
                asset.bytes(),
                asset.pos(),
            );
            assert(Seq::<u8>::empty() + head =~= head);
        }
        if let Err(e) = first {
            return Err(e);
        }
        let ghost mid = asset.bytes();
        let ghost at = asset.pos();
        let second = asset.write_f32(self.value);
        proof {
            lemma_emit(
                second,
                origin,
                start,
                head,
                enc_u32(self.value),
                mid,
                at,
                asset.bytes(),
                asset.pos(),
            );
        }
        match second {
            Ok(()) => Ok(4),
            Err(e) => Err(e),
        }
    }
}

/// A property that was written is read back.
pub proof fn lemma_float_property_round_trip(
    reading: Env,
    writing: Env,
    bytes: Seq<u8>,
    pos: u64,
    v: ScalarView<u32>,
    include_header: bool,
)
    requires
        paired(reading, writing),
        bytes.len() <= u64::MAX,
        has_at(bytes, pos as int, ser_float_property(writing, v, include_header)),
        guid_kept(writing, v.property_guid, include_header),
    ensures
        parse_float_property(
            reading,
            bytes,
            pos,
            v.name,
            include_header,
            v.duplication_index,
        ) == Ok::<
            (ScalarView<u32>, u64),
            Error,
        >((v, (pos + ser_float_property(writing, v, include_header).len()) as u64)),
{
    lemma_enc_dec();
    let head = ser_optional_guid(writing, v.property_guid, include_header);
    lemma_has_at_concat(bytes, pos as int, head, enc_u32(v.value));
    lemma_optional_guid_round_trip(reading, writing, bytes, pos, v.property_guid, include_header);
}

/// A double-precision number, held as its bit pattern.
#[derive(Clone, Debug, PartialEq, Eq, Hash)]
pub struct DoubleProperty {
    pub name: FName,
    pub property_guid: Option<Guid>,
    pub duplication_index: i32,
    pub value: u64,
}

impl DeepView for DoubleProperty {
    type V = ScalarView<u64>;

    open spec fn deep_view(&self) -> ScalarView<u64> {
        ScalarView {
            name: self.name.deep_view(),
            property_guid: self.property_guid.deep_view(),
            duplication_index: self.duplication_index,
            value: self.value,
        }
    }
}

/// The property at `pos`: its identifier, where a header is stored, and
/// its value.
pub open spec fn parse_double_property(
    env: Env,
    bytes: Seq<u8>,
    pos: u64,
    name: FNameView,
    include_header: bool,
    duplication_index: i32,
) -> Parsed<ScalarView<u64>> {
    match parse_optional_guid(env, bytes, pos, include_header) {
        Err(e) => Err(e),
        Ok((property_guid, p)) => match parse_u64(bytes, p) {
            Err(e) => Err(e),
            Ok((value, q)) => Ok((ScalarView { name, property_guid, duplication_index, value }, q)),
        },
    }
}

/// The bytes of the property on disk.
pub open spec fn ser_double_property(
    env: Env,
    v: ScalarView<u64>,
    include_header: bool,
) -> Seq<u8> {
    ser_optional_guid(env, v.property_guid, include_header) + enc_u64(v.value)
}

impl DoubleProperty {
    /// Reads the property. The declared length is not consulted.
    pub fn new<Reader: AssetReader>(
        asset: &mut Reader,
        name: FName,
        include_header: bool,
        _length: i64,
        duplication_index: i32,
    ) -> (r: Result<DoubleProperty, Error>)
        ensures
            final(asset).bytes() == old(asset).bytes(),
            final(asset).env() == old(asset).env(),
            yields_deep(
                r,
                final(asset).pos(),
                parse_double_property(
                    old(asset).env(),
                    old(asset).bytes(),
                    old(asset).pos(),
                    name.deep_view(),
                    include_header,
                    duplication_index,
                ),
            ),
    {
        let property_guid = match optional_guid(asset, include_header) {
            Ok(guid) => guid,
            Err(e) => return Err(e),
        };
        let value = match asset.read_f64() {
            Ok(value) => value,
            Err(e) => return Err(e),
        };
        Ok(DoubleProperty { name, property_guid, duplication_index, value })
    }

    /// Writes the property and reports the width of its value.
    pub fn write<Writer: AssetWriter>(
        &self,
        asset: &mut Writer,
        include_header: bool,
    ) -> (r: Result<usize, Error>)
        ensures
            final(asset).env() == old(asset).env(),
            emitted(
                r,
                8usize,
                old(asset).bytes(),
                old(asset).pos(),
                final(asset).bytes(),
                final(asset).pos(),
                ser_double_property(old(asset).env(), self.deep_view(), include_header),
            ),
    {
        let ghost origin = asset.bytes();
        let ghost start = asset.pos();
        let ghost head = ser_optional_guid(
            asset.env(),
            self.property_guid.deep_view(),
            include_header,
        );
        let first = optional_guid_write(asset, &self.property_guid, include_header);
        proof {
            lemma_emit(
                first,
                origin,
                start,
                Seq::empty(),
                head,
                origin,
                start,
                asset.bytes(),
                asset.pos(),
            );
            assert(Seq::<u8>::empty() + head =~= head);
        }
        if let Err(e) = first {
            return Err(e);
        }
        let ghost mid = asset.bytes();
        let ghost at = asset.pos();
        let second = asset.write_f64(self.value);
        proof {
            lemma_emit(
                second,
                origin,
                start,
                head,
                enc_u64(self.value),
                mid,
                at,
                asset.bytes(),
                asset.pos(),
            );
        }
        match second {
            Ok(()) => Ok(8),
            Err(e) => Err(e),
        }
    }
}

/// A property that was written is read back.
pub proof fn lemma_double_property_round_trip(
    reading: Env,
    writing: Env,
    bytes: Seq<u8>,
    pos: u64,
    v: ScalarView<u64>,
    include_header: bool,
)
    requires
        paired(reading, writing),
        bytes.len() <= u64::MAX,
        has_at(bytes, pos as int, ser_double_property(writing, v, include_header)),
        guid_kept(writing, v.property_guid, include_header),
    ensures
        parse_double_property(
            reading,
            bytes,
            pos,
            v.name,
            include_header,
            v.duplication_index,
        ) == Ok::<
            (ScalarView<u64>, u64),
            Error,
        >((v, (pos + ser_double_property(writing, v, include_header).len()) as u64)),
{
    lemma_enc_dec();
    let head = ser_optional_guid(writing, v.property_guid, include_header);
    lemma_has_at_concat(bytes, pos as int, head, enc_u64(v.value));
    lemma_optional_guid_round_trip(reading, writing, bytes, pos, v.property_guid, include_header);
}

/// A truth value. Its byte stands before the identifier, so that it counts
/// as part of the header; the value itself has no width.
#[derive(Clone, Debug, PartialEq, Eq, Hash)]
pub struct BoolProperty {
    pub name: FName,
    pub property_guid: Option<Guid>,
    pub duplication_index: i32,
    pub value: bool,
}

impl DeepView for BoolProperty {
    type V = ScalarView<bool>;

    open spec fn deep_view(&self) -> ScalarView<bool> {
        ScalarView {
            name: self.name.deep_view(),
            property_guid: self.property_guid.deep_view(),
            duplication_index: self.duplication_index,
            value: self.value,
        }
    }
}

/// The property at `pos`: its value, then its identifier where a header
/// is stored.
pub open spec fn parse_bool_property(
    env: Env,
    bytes: Seq<u8>,
    pos: u64,
    name: FNameView,
    include_header: bool,
    duplication_index: i32,
) -> Parsed<ScalarView<bool>> {
    match parse_bool(bytes, pos) {
        Err(e) => Err(e),
        Ok((value, p)) => match parse_optional_guid(env, bytes, p, include_header) {
            Err(e) => Err(e),
            Ok((property_guid, q)) => Ok(
                (ScalarView { name, property_guid, duplication_index, value }, q),
            ),
        },
    }
}

/// The bytes of the property on disk.
pub open spec fn ser_bool_property(env: Env, v: ScalarView<bool>, include_header: bool) -> Seq<u8> {
    enc_bool(v.value) + ser_optional_guid(env, v.property_guid, include_header)
}

impl BoolProperty {
    /// Reads the property. The declared length is not consulted.
    pub fn new<Reader: AssetReader>(
        asset: &mut Reader,
        name: FName,
        include_header: bool,
        _length: i64,
        duplication_index: i32,
    ) -> (r: Result<BoolProperty, Error>)
        ensures
            final(asset).bytes() == old(asset).bytes(),
            final(asset).env() == old(asset).env(),
            yields_deep(
                r,
                final(asset).pos(),
                parse_bool_property(
                    old(asset).env(),
                    old(asset).bytes(),
                    old(asset).pos(),
                    name.deep_view(),
                    include_header,
                    duplication_index,
                ),
            ),
    {
        let value = match asset.read_bool() {
            Ok(value) => value,
            Err(e) => return Err(e),
        };
        let property_guid = match optional_guid(asset, include_header) {
            Ok(guid) => guid,
            Err(e) => return Err(e),
        };
        Ok(BoolProperty { name, property_guid, duplication_index, value })
    }

    /// Writes the property and reports zero, the width of its value.
    pub fn write<Writer: AssetWriter>(
        &self,
        asset: &mut Writer,
        include_header: bool,
    ) -> (r: Result<usize, Error>)
        ensures
            final(asset).env() == old(asset).env(),
            emitted(
                r,
                0usize,
                old(asset).bytes(),
                old(asset).pos(),
                final(asset).bytes(),
                final(asset).pos(),
                ser_bool_property(old(asset).env(), self.deep_view(), include_header),
            ),
    {
        let ghost origin = asset.bytes();
        let ghost start = asset.pos();
        let ghost tail = ser_optional_guid(
            asset.env(),
            self.property_guid.deep_view(),
            include_header,
        );
        let first = asset.write_bool(self.value);
        proof {
            lemma_emit(
                first,
                origin,
                start,
                Seq::empty(),
                enc_bool(self.value),
                origin,
                start,
                asset.bytes(),
                asset.pos(),
            );
            assert(Seq::<u8>::empty() + enc_bool(self.value) =~= enc_bool(self.value));
        }
        if let Err(e) = first {
            return Err(e);
        }
        let ghost mid = asset.bytes();
        let ghost at = asset.pos();
        let second = optional_guid_write(asset, &self.property_guid, include_header);
        proof {
            lemma_emit(
                second,
                origin,
                start,
                enc_bool(self.value),
                tail,
                mid,
                at,
                asset.bytes(),
                asset.pos(),
            );
        }
        match second {
            Ok(()) => Ok(0),
            Err(e) => Err(e),
        }
    }
}

/// A property that was written is read back.
pub proof fn lemma_bool_property_round_trip(
    reading: Env,
    writing: Env,
    bytes: Seq<u8>,
    pos: u64,
    v: ScalarView<bool>,
    include_header: bool,
)
    requires
        paired(reading, writing),
        bytes.len() <= u64::MAX,
        has_at(bytes, pos as int, ser_bool_property(writing, v, include_header)),
        guid_kept(writing, v.property_guid, include_header),
    ensures
        parse_bool_property(
            reading,
            bytes,
            pos,
            v.name,
            include_header,
            v.duplication_index,
        ) == Ok::<
            (ScalarView<bool>, u64),
            Error,
        >((v, (pos + ser_bool_property(writing, v, include_header).len()) as u64)),
{
    let tail = ser_optional_guid(writing, v.property_guid, include_header);
    lemma_has_at_concat(bytes, pos as int, enc_bool(v.value), tail);
    assert(bytes.subrange(pos as int, pos + 1)[0] == enc_bool(v.value)[0]);
    lemma_optional_guid_round_trip(
        reading,
        writing,
        bytes,
        (pos + 1) as u64,
        v.property_guid,
        include_header,
    );
}

/// How the value of a byte property is stored.
#[derive(Clone, Copy, Debug, PartialEq, Eq, Hash, Structural)]
pub enum ByteType {
    /// In one byte.
    Byte,
    /// In eight bytes.
    Long,
}

/// A byte or the member of an enumeration. With a header it names its
/// enumeration.
#[derive(Clone, Debug, PartialEq, Eq, Hash)]
pub struct ByteProperty {
    pub name: FName,
    pub property_guid: Option<Guid>,
    pub duplication_index: i32,
    pub enum_type: Option<i64>,
    pub byte_type: ByteType,
    pub value: i64,
}

/// What a [`ByteProperty`] stands for.
pub struct BytePropertyView {
    pub name: FNameView,
    pub property_guid: Option<Seq<u8>>,
    pub duplication_index: i32,
    pub enum_type: Option<i64>,
    pub byte_type: ByteType,
    pub value: i64,
}

impl DeepView for ByteProperty {
    type V = BytePropertyView;

    open spec fn deep_view(&self) -> BytePropertyView {
        BytePropertyView {
            name: self.name.deep_view(),
            property_guid: self.property_guid.deep_view(),
            duplication_index: self.duplication_index,
            enum_type: self.enum_type,
            byte_type: self.byte_type,
            value: self.value,
        }
    }
}

/// The value of a byte property declared with `length`: one signed byte
/// for length one, eight bytes for length zero or eight, and no value for
/// any other length.
pub open spec fn parse_byte_value(
    bytes: Seq<u8>,
    pos: u64,
    length: i64,
) -> Parsed<(ByteType, i64)> {
    if length == 1 {
        match parse_i8(bytes, pos) {
            Err(e) => Err(e),
            Ok((b, p)) => Ok(((ByteType::Byte, b as i64), p)),
        }
    } else if length == 0 || length == 8 {
        match parse_i64(bytes, pos) {
            Err(e) => Err(e),
            Ok((v, p)) => Ok(((ByteType::Long, v), p)),
        }
    } else {
        Err(Error::InvalidFile(InvalidFileError::ByteLength(length)))
    }
}

/// The value of a byte property: read with the declared length and, where
/// that fails, with the fallback length at the same place.
pub open spec fn parse_byte_value_or(
    bytes: Seq<u8>,
    pos: u64,
    length: i64,
    fallback_length: i64,
) -> Parsed<(ByteType, i64)> {
    match parse_byte_value(bytes, pos, length) {
        Ok(found) => Ok(found),
        Err(_) => parse_byte_value(bytes, pos, fallback_length),
    }
}

/// The header of a byte property: with a header the enumeration and the
/// identifier, else neither.
pub open spec fn parse_byte_header(
    env: Env,
    bytes: Seq<u8>,
    pos: u64,
    include_header: bool,
) -> Parsed<(Option<i64>, Option<Seq<u8>>)> {
    if include_header {
        match parse_i64(bytes, pos) {
            Err(e) => Err(e),
            Ok((enum_type, p)) => match parse_property_guid(env, bytes, p) {
                Err(e) => Err(e),
                Ok((guid, q)) => Ok(((Some(enum_type), guid), q)),
            },
        }
    } else {
        Ok(((None, None), pos))
    }
}

/// The byte property at `pos`.
pub open spec fn parse_byte_property(
    env: Env,
    bytes: Seq<u8>,
    pos: u64,
    name: FNameView,
    include_header: bool,
    length: i64,
    fallback_length: i64,
    duplication_index: i32,
) -> Parsed<BytePropertyView> {
    match parse_byte_header(env, bytes, pos, include_header) {
        Err(e) => Err(e),
        Ok(((enum_type, property_guid), p)) => match parse_byte_value_or(
            bytes,
            p,
            length,
            fallback_length,
        ) {
            Err(e) => Err(e),
            Ok(((byte_type, value), q)) => Ok(
                (
                    BytePropertyView {
                        name,
                        property_guid,
                        duplication_index,
                        enum_type,
                        byte_type,
                        value,
                    },
                    q,
                ),
            ),
        },
    }
}

/// The bytes of the value of a byte property.
pub open spec fn ser_byte_value(byte_type: ByteType, value: i64) -> Seq<u8> {
    match byte_type {
        ByteType::Byte => enc_u8(value as u8),
        ByteType::Long => enc_i64(value),
    }
}

/// The width of the value of a byte property.
pub open spec fn byte_width(byte_type: ByteType) -> usize {
    match byte_type {
        ByteType::Byte => 1,
        ByteType::Long => 8,
    }
}

/// The bytes of a byte property on disk. A property without enumeration
/// cannot be written with a header.
pub open spec fn ser_byte_property(env: Env, v: BytePropertyView, include_header: bool) -> Result<
    Seq<u8>,
    Error,
> {
    if include_header {
        match v.enum_type {
            None => Err(Error::Property(PropertyError::Headerless)),
            Some(enum_type) => Ok(
                enc_i64(enum_type) + ser_property_guid(env, v.property_guid) + ser_byte_value(
                    v.byte_type,
                    v.value,
                ),
            ),
        }
    } else {
        Ok(ser_byte_value(v.byte_type, v.value))
    }
}

impl ByteProperty {
    /// Reads the value of a byte property declared with `length`.
    fn read_byte<Reader: AssetReader>(asset: &mut Reader, length: i64) -> (r: Result<
        (ByteType, i64),
        Error,
    >)
        ensures
            final(asset).bytes() == old(asset).bytes(),
            final(asset).env() == old(asset).env(),
            reads(
                r,
                old(asset).pos(),
                final(asset).pos(),
                parse_byte_value(old(asset).bytes(), old(asset).pos(), length),
            ),
    {
        if length == 1 {
            match asset.read_i8() {
                Ok(b) => Ok((ByteType::Byte, b as i64)),
                Err(e) => Err(e),
            }
        } else if length == 0 || length == 8 {
            match asset.read_i64() {
                Ok(v) => Ok((ByteType::Long, v)),
                Err(e) => Err(e),
            }
        } else {
            Err(Error::InvalidFile(InvalidFileError::ByteLength(length)))
        }
    }

    /// Reads the property. Its value is read with the declared length and,
    /// where that fails, once more with the fallback length.
    pub fn new<Reader: AssetReader>(
        asset: &mut Reader,
        name: FName,
        include_header: bool,
        length: i64,
        fallback_length: i64,
        duplication_index: i32,
    ) -> (r: Result<ByteProperty, Error>)
        ensures
            final(asset).bytes() == old(asset).bytes(),
            final(asset).env() == old(asset).env(),
            yields_deep(
                r,
                final(asset).pos(),
                parse_byte_property(
                    old(asset).env(),
                    old(asset).bytes(),
                    old(asset).pos(),
                    name.deep_view(),
                    include_header,
                    length,
                    fallback_length,
                    duplication_index,
                ),
            ),
    {
        let mut enum_type: Option<i64> = None;
        let mut property_guid: Option<Guid> = None;
        if include_header {
            enum_type = match asset.read_i64() {
                Ok(v) => Some(v),
                Err(e) => return Err(e),
            };
            property_guid = match asset.read_property_guid() {
                Ok(guid) => guid,
                Err(e) => return Err(e),
            };
        }
        let found = match ByteProperty::read_byte(asset, length) {
            Ok(found) => Ok(found),
            Err(_) => ByteProperty::read_byte(asset, fallback_length),
        };
        match found {
            Ok((byte_type, value)) => Ok(
                ByteProperty {
                    name,
                    property_guid,
                    duplication_index,
                    enum_type,
                    byte_type,
                    value,
                },
            ),
            Err(e) => Err(e),
        }
    }

    /// Writes the property and reports the width of its value. With a
    /// header, a property without enumeration is refused before anything
    /// is written.
    pub fn write<Writer: AssetWriter>(
        &self,
        asset: &mut Writer,
        include_header: bool,
    ) -> (r: Result<usize, Error>)
        ensures
            final(asset).env() == old(asset).env(),
            match ser_byte_property(old(asset).env(), self.deep_view(), include_header) {
                Ok(chunk) => emitted(
                    r,
                    byte_width(self.byte_type),
                    old(asset).bytes(),
                    old(asset).pos(),
                    final(asset).bytes(),
                    final(asset).pos(),
                    chunk,
                ),
                Err(e) => r == Err::<usize, Error>(e) && final(asset).bytes() == old(asset).bytes()
                    && final(asset).pos() == old(asset).pos(),
            },
    {
        let ghost origin = asset.bytes();
        let ghost start = asset.pos();
        let ghost mut done = Seq::<u8>::empty();
        if include_header {
            let enum_type = match self.enum_type {
                Some(enum_type) => enum_type,
                None => return Err(Error::Property(PropertyError::Headerless)),
            };
            let first = asset.write_i64(enum_type);
            proof {
                lemma_emit(
                    first,
                    origin,
                    start,
                    done,
                    enc_i64(enum_type),
                    origin,
                    start,
                    asset.bytes(),
                    asset.pos(),
                );
                done = done + enc_i64(enum_type);
            }
            if let Err(e) = first {
                return Err(e);
            }
            let ghost mid = asset.bytes();
            let ghost at = asset.pos();
            let ghost chunk = ser_property_guid(asset.env(), self.property_guid.deep_view());
            let second = asset.write_property_guid(&self.property_guid);
            proof {
                lemma_emit(second, origin, start, done, chunk, mid, at, asset.bytes(), asset.pos());
                done = done + chunk;
            }
            if let Err(e) = second {
                return Err(e);
            }
        }
        let ghost mid = asset.bytes();
        let ghost at = asset.pos();
        let ghost chunk = ser_byte_value(self.byte_type, self.value);
        match self.byte_type {
            ByteType::Byte => {
                let last = asset.write_u8(#[verifier::truncate] (self.value as u8));
                proof {
                    lemma_emit(
                        last,
                        origin,
                        start,
                        done,
                        chunk,
                        mid,
                        at,
                        asset.bytes(),
                        asset.pos(),
                    );
                    assert(Seq::<u8>::empty() + chunk =~= chunk);
                }
                match last {
                    Ok(()) => Ok(1),
                    Err(e) => Err(e),
                }
            },
            ByteType::Long => {
                let last = asset.write_i64(self.value);
                proof {
                    lemma_emit(
                        last,
                        origin,
                        start,
                        done,
                        chunk,
                        mid,
                        at,
                        asset.bytes(),
                        asset.pos(),
                    );
                    assert(Seq::<u8>::empty() + chunk =~= chunk);
                }
                match last {
                    Ok(()) => Ok(8),
                    Err(e) => Err(e),
                }
            },
        }
    }
}


/// Whether a byte property is read back as it was written: with a header
/// it names its enumeration, without a header it holds neither enumeration
/// nor identifier, and a value that is stored in one byte is a signed byte.
pub open spec fn byte_property_kept(
    writing: Env,
    v: BytePropertyView,
    include_header: bool,
) -> bool {
    &&& guid_kept(writing, v.property_guid, include_header)
    &&& v.enum_type is Some <==> include_header
    &&& v.byte_type == ByteType::Byte ==> -128 <= v.value <= 127
}

/// A byte property that was written is read back, where it is read with
/// the width of its value as declared length.
pub proof fn lemma_byte_property_round_trip(
    reading: Env,
    writing: Env,
    bytes: Seq<u8>,
    pos: u64,
    v: BytePropertyView,
    include_header: bool,
    fallback_length: i64,
)
    requires
        paired(reading, writing),
        bytes.len() <= u64::MAX,
        ser_byte_property(writing, v, include_header) is Ok,
        has_at(bytes, pos as int, ser_byte_property(writing, v, include_header)->Ok_0),
        byte_property_kept(writing, v, include_header),
    ensures
        parse_byte_property(
            reading,
            bytes,
            pos,
            v.name,
            include_header,
            byte_width(v.byte_type) as i64,
            fallback_length,
            v.duplication_index,
        ) == Ok::<(BytePropertyView, u64), Error>(
            (v, (pos + ser_byte_property(writing, v, include_header)->Ok_0.len()) as u64),
        ),
{
    lemma_enc_dec();
    let value = ser_byte_value(v.byte_type, v.value);
    let at: u64 = if include_header {
        let kind = enc_i64(v.enum_type->Some_0);
        let guid = ser_property_guid(writing, v.property_guid);
        lemma_has_at_concat(bytes, pos as int, kind + guid, value);
        lemma_has_at_concat(bytes, pos as int, kind, guid);
        crate::properties::lemma_optional_guid_round_trip(
            reading,
            writing,
            bytes,
            (pos + 8) as u64,
            v.property_guid,
            true,
        );
        (pos + 8 + guid.len()) as u64
    } else {
        pos
    };
    if v.byte_type == ByteType::Byte {
        let x = v.value;
        let b = #[verifier::truncate] (x as u8);
        assert(bytes.subrange(at as int, at + 1)[0] == b);
        assert(b as int == if x < 0 {
            x as int + 0x100
        } else {
            x as int
        }) by (bit_vector)
            requires
                -128 <= x <= 127,
                b == x as u8,
        ;
    }
}

/// Reading the property does not end before it starts.
pub proof fn lemma_int8_property_monotone(
    env: Env,
    bytes: Seq<u8>,
    pos: u64,
    name: FNameView,
    include_header: bool,
    duplication_index: i32,
)
    requires
        bytes.len() <= u64::MAX,
    ensures
        parse_int8_property(env, bytes, pos, name, include_header, duplication_index) matches Ok(
            (_, end),
        ) ==> end >= pos,
{
}

/// Reading the property does not end before it starts.
pub proof fn lemma_int_property_monotone(
    env: Env,
    bytes: Seq<u8>,
    pos: u64,
    name: FNameView,
    include_header: bool,
    duplication_index: i32,
)
    requires
        bytes.len() <= u64::MAX,
    ensures
        parse_int_property(env, bytes, pos, name, include_header, duplication_index) matches Ok(
            (_, end),
        ) ==> end >= pos,
{
}

/// Reading the property does not end before it starts.
pub proof fn lemma_int16_property_monotone(
    env: Env,
    bytes: Seq<u8>,
    pos: u64,
    name: FNameView,
    include_header: bool,
    duplication_index: i32,
)
    requires
        bytes.len() <= u64::MAX,
    ensures
        parse_int16_property(env, bytes, pos, name, include_header, duplication_index) matches Ok(
            (_, end),
        ) ==> end >= pos,
{
}

/// Reading the property does not end before it starts.
pub proof fn lemma_int64_property_monotone(
    env: Env,
    bytes: Seq<u8>,
    pos: u64,
    name: FNameView,
    include_header: bool,
    duplication_index: i32,
)
    requires
        bytes.len() <= u64::MAX,
    ensures
        parse_int64_property(env, bytes, pos, name, include_header, duplication_index) matches Ok(
            (_, end),
        ) ==> end >= pos,
{
}

/// Reading the property does not end before it starts.
pub proof fn lemma_uint16_property_monotone(
    env: Env,
    bytes: Seq<u8>,
    pos: u64,
    name: FNameView,
    include_header: bool,
    duplication_index: i32,
)
    requires
        bytes.len() <= u64::MAX,
    ensures
        parse_uint16_property(env, bytes, pos, name, include_header, duplication_index) matches Ok(
            (_, end),
        ) ==> end >= pos,
{
}

/// Reading the property does not end before it starts.
pub proof fn lemma_uint32_property_monotone(
    env: Env,
    bytes: Seq<u8>,
    pos: u64,
    name: FNameView,
    include_header: bool,
    duplication_index: i32,
)
    requires
        bytes.len() <= u64::MAX,
    ensures
        parse_uint32_property(env, bytes, pos, name, include_header, duplication_index) matches Ok(
            (_, end),
        ) ==> end >= pos,
{
}

/// Reading the property does not end before it starts.
pub proof fn lemma_uint64_property_monotone(
    env: Env,
    bytes: Seq<u8>,
    pos: u64,
    name: FNameView,
    include_header: bool,
    duplication_index: i32,
)
    requires
        bytes.len() <= u64::MAX,
    ensures
        parse_uint64_property(env, bytes, pos, name, include_header, duplication_index) matches Ok(
            (_, end),
        ) ==> end >= pos,
{
}

/// Reading the property does not end before it starts.
pub proof fn lemma_float_property_monotone(
    env: Env,
    bytes: Seq<u8>,
    pos: u64,
    name: FNameView,
    include_header: bool,
    duplication_index: i32,
)
    requires
        bytes.len() <= u64::MAX,
    ensures
        parse_float_property(env, bytes, pos, name, include_header, duplication_index) matches Ok(
            (_, end),
        ) ==> end >= pos,
{
}

/// Reading the property does not end before it starts.
pub proof fn lemma_double_property_monotone(
    env: Env,
    bytes: Seq<u8>,
    pos: u64,
    name: FNameView,
    include_header: bool,
    duplication_index: i32,
)
    requires
        bytes.len() <= u64::MAX,
    ensures
        parse_double_property(env, bytes, pos, name, include_header, duplication_index) matches Ok(
            (_, end),
        ) ==> end >= pos,
{
}

/// Reading the property does not end before it starts.
pub proof fn lemma_bool_property_monotone(
    env: Env,
    bytes: Seq<u8>,
    pos: u64,
    name: FNameView,
    include_header: bool,
    duplication_index: i32,
)
    requires
        bytes.len() <= u64::MAX,
    ensures
        parse_bool_property(env, bytes, pos, name, include_header, duplication_index) matches Ok(
            (_, end),
        ) ==> end >= pos,
{
}

/// Reading the property does not end before it starts.
pub proof fn lemma_byte_property_monotone(
    env: Env,
    bytes: Seq<u8>,
    pos: u64,
    name: FNameView,
    include_header: bool,
    length: i64,
    fallback_length: i64,
    duplication_index: i32,
)
    requires
        bytes.len() <= u64::MAX,
    ensures
        parse_byte_property(
            env,
            bytes,
            pos,
            name,
            include_header,
            length,
            fallback_length,
            duplication_index,
        ) matches Ok(
            (_, end),
        ) ==> end >= pos,
{
}

} // verus!
