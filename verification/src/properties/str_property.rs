//! Properties that hold a text or a name.

use crate::cursor_ext::{
    lemma_string_advances, lemma_string_round_trip, parse_string, ser_string, string_kept,
    string_written,
};
use crate::error::Error;
use crate::le::lemma_enc_dec;
use crate::properties::{
    guid_kept, lemma_optional_guid_round_trip, optional_guid, optional_guid_write,
    parse_optional_guid, ser_optional_guid, ScalarView,
};
use crate::reader::asset_reader::AssetReader;
use crate::reader::asset_trait::{
    lemma_fname_advances, lemma_fname_round_trip, name_kept, paired, parse_fname, ser_fname, Env,
};
use crate::reader::asset_writer::AssetWriter;
use crate::stream::{
    emitted, emitted_checked, has_at, lemma_emit, lemma_has_at_concat, yields_deep, Parsed,
};
use crate::unreal_types::{FName, FNameView, Guid};
use vstd::prelude::*;

verus! {

/// A text, which may be the null string.
#[derive(Clone, Debug, PartialEq, Eq, Hash)]
pub struct StrProperty {
    pub name: FName,
    pub property_guid: Option<Guid>,
    pub duplication_index: i32,
    pub value: Option<String>,
}

/// What a [`StrProperty`] stands for.
pub type StrPropertyView = ScalarView<Option<Seq<char>>>;

impl DeepView for StrProperty {
    type V = StrPropertyView;

    open spec fn deep_view(&self) -> StrPropertyView {
        ScalarView {
            name: self.name.deep_view(),
            property_guid: self.property_guid.deep_view(),
            duplication_index: self.duplication_index,
            value: self.value.deep_view(),
        }
    }
}

/// The property at `pos`: its identifier, where a header is stored, and
/// its value.
pub open spec fn parse_str_property(
    env: Env,
    bytes: Seq<u8>,
    pos: u64,
    name: FNameView,
    include_header: bool,
    duplication_index: i32,
) -> Parsed<StrPropertyView> {
    match parse_optional_guid(env, bytes, pos, include_header) {
        Err(e) => Err(e),
        Ok((property_guid, p)) => match parse_string(bytes, p) {
            Err(e) => Err(e),
            Ok((value, q)) => Ok(
                (ScalarView { name, property_guid, duplication_index, value }, q),
            ),
        },
    }
}

/// The bytes of the property on disk.
pub open spec fn ser_str_property(env: Env, v: StrPropertyView, include_header: bool) -> Seq<u8> {
    ser_optional_guid(env, v.property_guid, include_header) + ser_string(v.value)
}

/// Whether the property is read back as it was written.
pub open spec fn str_property_kept(
    reading: Env,
    writing: Env,
    v: StrPropertyView,
    include_header: bool,
) -> bool {
    guid_kept(writing, v.property_guid, include_header)
        && string_kept(v.value)
}

impl StrProperty {
    /// Reads the property. The declared length is not consulted.
    pub fn new<Reader: AssetReader>(
        asset: &mut Reader,
        name: FName,
        include_header: bool,
        _length: i64,
        duplication_index: i32,
    ) -> (r: Result<StrProperty, Error>)
        ensures
            final(asset).bytes() == old(asset).bytes(),
            final(asset).env() == old(asset).env(),
            yields_deep(
                r,
                final(asset).pos(),
                parse_str_property(
                    old(asset).env(),
                    old(asset).bytes(),
                    old(asset).pos(),
                    name.deep_view(),
                    include_header,
                    duplication_index,
                ),
            ),
    {
        let property_guid = match optional_guid(asset, include_header) {
            Ok(guid) => guid,
            Err(e) => return Err(e),
        };
        let value = match asset.read_string() {
            Ok(value) => value,
            Err(e) => return Err(e),
        };
        Ok(StrProperty { name, property_guid, duplication_index, value })
    }

    /// Writes the property and reports the count of its value.
    pub fn write<Writer: AssetWriter>(&self, asset: &mut Writer, include_header: bool) -> (r:
        Result<usize, Error>)
        ensures
            final(asset).env() == old(asset).env(),
            emitted(
                r,
                string_written(self.value.deep_view()),
                old(asset).bytes(),
                old(asset).pos(),
                final(asset).bytes(),
                final(asset).pos(),
                ser_str_property(old(asset).env(), self.deep_view(), include_header),
            ),
    {
        let ghost origin = asset.bytes();
        let ghost start = asset.pos();
        let ghost none = Seq::<u8>::empty();
        let ghost head = ser_optional_guid(
            asset.env(),
            self.property_guid.deep_view(),
            include_header,
        );
        let first = optional_guid_write(asset, &self.property_guid, include_header);
        proof {
            lemma_emit(first, origin, start, none, head, origin, start, asset.bytes(), asset.pos());
            assert(none + head =~= head);
        }
        if let Err(e) = first {
            return Err(e);
        }
        let ghost mid = asset.bytes();
        let ghost at = asset.pos();
        let second = asset.write_string(&self.value);
        proof {
            lemma_emit(
                match second {
                    Ok(_) => Ok(()),
                    Err(e) => Err(e),
                },
                origin,
                start,
                head,
                ser_string(self.value.deep_view()),
                mid,
                at,
                asset.bytes(),
                asset.pos(),
            );
        }
        second
    }
}

/// A property that was written is read back.
pub proof fn lemma_str_property_round_trip(
    reading: Env,
    writing: Env,
    bytes: Seq<u8>,
    pos: u64,
    v: StrPropertyView,
    include_header: bool,
)
    requires
        paired(reading, writing),
        bytes.len() <= u64::MAX,
        has_at(bytes, pos as int, ser_str_property(writing, v, include_header)),
        str_property_kept(reading, writing, v, include_header),
    ensures
        parse_str_property(
            reading,
            bytes,
            pos,
            v.name,
            include_header,
            v.duplication_index,
        ) == Ok::<(StrPropertyView, u64), Error>(
            (
                v,
                (pos + ser_str_property(writing, v, include_header).len()) as u64,
            ),
        ),
{
    lemma_enc_dec();
    let head = ser_optional_guid(writing, v.property_guid, include_header);
    lemma_has_at_concat(bytes, pos as int, head, ser_string(v.value));
    lemma_optional_guid_round_trip(reading, writing, bytes, pos, v.property_guid, include_header);
    lemma_string_round_trip(bytes, (pos + head.len()) as u64, v.value);
}

/// Reading the property does not end before it starts.
pub proof fn lemma_str_property_monotone(
    env: Env,
    bytes: Seq<u8>,
    pos: u64,
    name: FNameView,
    include_header: bool,
    duplication_index: i32,
)
    requires
        bytes.len() <= u64::MAX,
    ensures
        parse_str_property(env, bytes, pos, name, include_header, duplication_index) matches Ok(
            (_, end),
        ) ==> end >= pos,
{
    match parse_optional_guid(env, bytes, pos, include_header) {
        Ok((_, p)) => {
            lemma_string_advances(bytes, p);
        },
        Err(e) => {},
    }
}

/// A name.
#[derive(Clone, Debug, PartialEq, Eq, Hash)]
pub struct NameProperty {
    pub name: FName,
    pub property_guid: Option<Guid>,
    pub duplication_index: i32,
    pub value: FName,
}

/// What a [`NameProperty`] stands for.
pub type NamePropertyView = ScalarView<FNameView>;

impl DeepView for NameProperty {
    type V = NamePropertyView;

    open spec fn deep_view(&self) -> NamePropertyView {
        ScalarView {
            name: self.name.deep_view(),
            property_guid: self.property_guid.deep_view(),
            duplication_index: self.duplication_index,
            value: self.value.deep_view(),
        }
    }
}

/// The property at `pos`: its identifier, where a header is stored, and
/// its value.
pub open spec fn parse_name_property(
    env: Env,
    bytes: Seq<u8>,
    pos: u64,
    name: FNameView,
    include_header: bool,
    duplication_index: i32,
) -> Parsed<NamePropertyView> {
    match parse_optional_guid(env, bytes, pos, include_header) {
        Err(e) => Err(e),
        Ok((property_guid, p)) => match parse_fname(env, bytes, p) {
            Err(e) => Err(e),
            Ok((value, q)) => Ok(
                (ScalarView { name, property_guid, duplication_index, value }, q),
            ),
        },
    }
}

/// The bytes of the property on disk, where it can be written.
pub open spec fn ser_name_property(env: Env, v: NamePropertyView, include_header: bool) -> Result<
    Seq<u8>,
    Error,
> {
    match ser_fname(env, v.value) {
        Err(e) => Err(e),
        Ok(value) => Ok(ser_optional_guid(env, v.property_guid, include_header) + value),
    }
}

/// Whether the property is read back as it was written.
pub open spec fn name_property_kept(
    reading: Env,
    writing: Env,
    v: NamePropertyView,
    include_header: bool,
) -> bool {
    guid_kept(writing, v.property_guid, include_header)
        && name_kept(reading, writing, v.value)
}

impl NameProperty {
    /// Reads the property. The declared length is not consulted.
    pub fn new<Reader: AssetReader>(
        asset: &mut Reader,
        name: FName,
        include_header: bool,
        _length: i64,
        duplication_index: i32,
    ) -> (r: Result<NameProperty, Error>)
        ensures
            final(asset).bytes() == old(asset).bytes(),
            final(asset).env() == old(asset).env(),
            yields_deep(
                r,
                final(asset).pos(),
                parse_name_property(
                    old(asset).env(),
                    old(asset).bytes(),
                    old(asset).pos(),
                    name.deep_view(),
                    include_header,
                    duplication_index,
                ),
            ),
    {
        let property_guid = match optional_guid(asset, include_header) {
            Ok(guid) => guid,
            Err(e) => return Err(e),
        };
        let value = match asset.read_fname() {
            Ok(value) => value,
            Err(e) => return Err(e),
        };
        Ok(NameProperty { name, property_guid, duplication_index, value })
    }

    /// Writes the property and reports the count of its value.
    pub fn write<Writer: AssetWriter>(&self, asset: &mut Writer, include_header: bool) -> (r:
        Result<usize, Error>)
        ensures
            final(asset).env() == old(asset).env(),
            emitted_checked(
                r,
                8usize,
                old(asset).bytes(),
                old(asset).pos(),
                final(asset).bytes(),
                final(asset).pos(),
                ser_name_property(old(asset).env(), self.deep_view(), include_header),
            ),
    {
        let ghost origin = asset.bytes();
        let ghost start = asset.pos();
        let ghost none = Seq::<u8>::empty();
        let ghost head = ser_optional_guid(
            asset.env(),
            self.property_guid.deep_view(),
            include_header,
        );
        let first = optional_guid_write(asset, &self.property_guid, include_header);
        proof {
            lemma_emit(first, origin, start, none, head, origin, start, asset.bytes(), asset.pos());
            assert(none + head =~= head);
        }
        if let Err(e) = first {
            return Err(e);
        }
        let ghost mid = asset.bytes();
        let ghost at = asset.pos();
        let second = asset.write_fname(&self.value);
        proof {
            match ser_fname(asset.env(), self.value.deep_view()) {
                Ok(value) => {
                    lemma_emit(
                        second,
                        origin,
                        start,
                        head,
                        value,
                        mid,
                        at,
                        asset.bytes(),
                        asset.pos(),
                    );
                },
                Err(e) => {},
            }
        }
        match second {
            Ok(()) => Ok(8),
            Err(e) => Err(e),
        }
    }
}

/// A property that was written is read back.
pub proof fn lemma_name_property_round_trip(
    reading: Env,
    writing: Env,
    bytes: Seq<u8>,
    pos: u64,
    v: NamePropertyView,
    include_header: bool,
)
    requires
        paired(reading, writing),
        bytes.len() <= u64::MAX,
        ser_name_property(writing, v, include_header) is Ok,
        has_at(bytes, pos as int, ser_name_property(writing, v, include_header)->Ok_0),
        name_property_kept(reading, writing, v, include_header),
    ensures
        parse_name_property(
            reading,
            bytes,
            pos,
            v.name,
            include_header,
            v.duplication_index,
        ) == Ok::<(NamePropertyView, u64), Error>(
            (
                v,
                (pos + ser_name_property(writing, v, include_header)->Ok_0.len()) as u64,
            ),
        ),
{
    lemma_enc_dec();
    let head = ser_optional_guid(writing, v.property_guid, include_header);
    let value = ser_fname(writing, v.value)->Ok_0;
    lemma_has_at_concat(bytes, pos as int, head, value);
    lemma_optional_guid_round_trip(reading, writing, bytes, pos, v.property_guid, include_header);
    lemma_fname_round_trip(reading, writing, bytes, (pos + head.len()) as u64, v.value);
}

/// Reading the property does not end before it starts.
pub proof fn lemma_name_property_monotone(
    env: Env,
    bytes: Seq<u8>,
    pos: u64,
    name: FNameView,
    include_header: bool,
    duplication_index: i32,
)
    requires
        bytes.len() <= u64::MAX,
    ensures
        parse_name_property(env, bytes, pos, name, include_header, duplication_index) matches Ok(
            (_, end),
        ) ==> end >= pos,
{
    match parse_optional_guid(env, bytes, pos, include_header) {
        Ok((_, p)) => {
            lemma_fname_advances(env, bytes, p);
        },
        Err(e) => {},
    }
}

} // verus!
