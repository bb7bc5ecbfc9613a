//! The typed values that an export is made of.

pub mod delegate_property;
pub mod int_property;
pub mod object_property;
pub mod str_property;
pub mod view_target_blend_property;

use crate::cursor::SeekFrom;
use crate::cursor_ext::{lemma_string_read_is_kept, string_written};
use crate::error::{Error, PropertyError};
use crate::le::{enc_i32, lemma_enc_dec};
use crate::properties::delegate_property::{
    lemma_multicast_delegate_property_monotone, lemma_multicast_delegate_property_read_is_kept,
    lemma_multicast_delegate_property_round_trip, multicast_delegate_written,
    parse_multicast_delegate_property, ser_multicast_delegate_property, MulticastDelegateProperty,
    MulticastDelegatePropertyView,
};
use crate::properties::int_property::{
    byte_property_kept, byte_width, lemma_bool_property_monotone, lemma_bool_property_round_trip,
    lemma_byte_property_monotone, lemma_byte_property_round_trip, lemma_double_property_monotone,
    lemma_double_property_round_trip, lemma_float_property_monotone,
    lemma_float_property_round_trip, lemma_int16_property_monotone, lemma_int16_property_round_trip,
    lemma_int64_property_monotone, lemma_int64_property_round_trip, lemma_int8_property_monotone,
    lemma_int8_property_round_trip, lemma_int_property_monotone, lemma_int_property_round_trip,
    lemma_uint16_property_monotone, lemma_uint16_property_round_trip,
    lemma_uint32_property_monotone, lemma_uint32_property_round_trip,
    lemma_uint64_property_monotone, lemma_uint64_property_round_trip, parse_bool_property,
    parse_byte_property, parse_double_property, parse_float_property, parse_int16_property,
    parse_int64_property, parse_int8_property, parse_int_property, parse_uint16_property,
    parse_uint32_property, parse_uint64_property, ser_bool_property, ser_byte_property,
    ser_double_property, ser_float_property, ser_int16_property, ser_int64_property,
    ser_int8_property, ser_int_property, ser_uint16_property, ser_uint32_property,
    ser_uint64_property, BoolProperty, ByteProperty, BytePropertyView, DoubleProperty,
    FloatProperty, Int16Property, Int64Property, Int8Property, IntProperty, UInt16Property,
    UInt32Property, UInt64Property,
};
use crate::properties::object_property::{
    lemma_object_property_monotone, lemma_object_property_round_trip, object_property_kept,
    parse_object_property, ser_object_property, ObjectProperty, ObjectPropertyView,
};
use crate::properties::str_property::{
    lemma_name_property_monotone, lemma_name_property_round_trip, lemma_str_property_monotone,
    lemma_str_property_round_trip, name_property_kept, parse_name_property, parse_str_property,
    ser_name_property, ser_str_property, str_property_kept, NameProperty, NamePropertyView,
    StrProperty, StrPropertyView,
};
use crate::properties::view_target_blend_property::{
    lemma_view_target_blend_params_property_monotone,
    lemma_view_target_blend_params_property_round_trip, parse_view_target_blend_params_property,
    ser_view_target_blend_params_property, ViewTargetBlendParamsProperty,
    ViewTargetBlendParamsPropertyView,
};
use crate::reader::asset_reader::AssetReader;
use crate::reader::asset_trait::{
    lemma_fname_read_is_kept, lemma_fname_round_trip, name_kept, paired, parse_fname,
    parse_property_guid, ser_fname, ser_property_guid, table_kept, Env,
};
use crate::reader::asset_writer::AssetWriter;
use crate::stream::{
    emitted, emitted_checked, has_at, lemma_emit, lemma_has_at_concat, lemma_write_at_patch_mid,
    parse_i32, wrote, yields_deep, Parsed,
};
use crate::unreal_types::{FName, FNameView, Guid};
use vstd::prelude::*;
use vstd::string::StringExecFns;

verus! {

/// What a property with a single value stands for.
pub struct ScalarView<T> {
    pub name: FNameView,
    pub property_guid: Option<Seq<u8>>,
    pub duplication_index: i32,
    pub value: T,
}

/// The identifier of a property, which is stored only with a header.
pub open spec fn parse_optional_guid(
    env: Env,
    bytes: Seq<u8>,
    pos: u64,
    include_header: bool,
) -> Parsed<Option<Seq<u8>>> {
    if include_header {
        parse_property_guid(env, bytes, pos)
    } else {
        Ok((None, pos))
    }
}

/// The bytes of the identifier of a property, which is stored only with a
/// header.
pub open spec fn ser_optional_guid(
    env: Env,
    guid: Option<Seq<u8>>,
    include_header: bool,
) -> Seq<u8> {
    if include_header {
        ser_property_guid(env, guid)
    } else {
        Seq::<u8>::empty()
    }
}

/// Whether the identifier of a property survives being written: it has
/// sixteen bytes, and it is absent where nothing is stored for it.
pub open spec fn guid_kept(env: Env, guid: Option<Seq<u8>>, include_header: bool) -> bool {
    match guid {
        None => true,
        Some(raw) => include_header && env.guids && raw.len() == 16,
    }
}

/// Reads the identifier of a property where a header is stored.
pub fn optional_guid<Reader: AssetReader>(asset: &mut Reader, include_header: bool) -> (r: Result<
    Option<Guid>,
    Error,
>)
    ensures
        final(asset).bytes() == old(asset).bytes(),
        final(asset).env() == old(asset).env(),
        yields_deep(
            r,
            final(asset).pos(),
            parse_optional_guid(
                old(asset).env(),
                old(asset).bytes(),
                old(asset).pos(),
                include_header,
            ),
        ),
{
    if include_header {
        asset.read_property_guid()
    } else {
        Ok(None)
    }
}

/// Writes the identifier of a property where a header is stored.
pub fn optional_guid_write<Writer: AssetWriter>(
    asset: &mut Writer,
    guid: &Option<Guid>,
    include_header: bool,
) -> (r: Result<(), Error>)
    ensures
        final(asset).env() == old(asset).env(),
        wrote(
            r,
            old(asset).bytes(),
            old(asset).pos(),
            final(asset).bytes(),
            final(asset).pos(),
            ser_optional_guid(old(asset).env(), guid.deep_view(), include_header),
        ),
{
    if include_header {
        asset.write_property_guid(guid)
    } else {
        let nothing: Vec<u8> = Vec::new();
        asset.write_all(nothing.as_slice())
    }
}

/// An identifier that was written is read back.
pub proof fn lemma_optional_guid_round_trip(
    reading: Env,
    writing: Env,
    bytes: Seq<u8>,
    pos: u64,
    guid: Option<Seq<u8>>,
    include_header: bool,
)
    requires
        paired(reading, writing),
        bytes.len() <= u64::MAX,
        has_at(bytes, pos as int, ser_optional_guid(writing, guid, include_header)),
        guid_kept(writing, guid, include_header),
    ensures
        parse_optional_guid(
            reading,
            bytes,
            pos,
            include_header,
        ) == Ok::<(Option<Seq<u8>>, u64), Error>(
            (guid, (pos + ser_optional_guid(writing, guid, include_header).len()) as u64),
        ),
{
    if include_header && reading.guids {
        match guid {
            Some(raw) => {
                lemma_has_at_concat(bytes, pos as int, seq![1u8], raw);
                assert(bytes.subrange(pos as int, pos + 1) == seq![1u8]);
                assert(bytes.subrange(pos as int, pos + 1)[0] == 1u8);
            },
            None => {
                assert(bytes.subrange(pos as int, pos + 1) == seq![0u8]);
                assert(bytes.subrange(pos as int, pos + 1)[0] == 0u8);
            },
        }
    }
}


/// The kinds of property.
#[derive(Clone, Copy, Debug, PartialEq, Eq, Hash, Structural)]
pub enum PropertyKind {
    BoolProperty,
    Int8Property,
    ByteProperty,
    IntProperty,
    Int16Property,
    Int64Property,
    UInt16Property,
    UInt32Property,
    UInt64Property,
    FloatProperty,
    DoubleProperty,
    MulticastDelegateProperty,
    ViewTargetBlendParamsProperty,
    StrProperty,
    NameProperty,
    ObjectProperty,
}

/// The name that stands for a kind of property on disk.
pub open spec fn kind_name(kind: PropertyKind) -> Seq<char> {
    match kind {
        PropertyKind::BoolProperty => "BoolProperty"@,
        PropertyKind::Int8Property => "Int8Property"@,
        PropertyKind::ByteProperty => "ByteProperty"@,
        PropertyKind::IntProperty => "IntProperty"@,
        PropertyKind::Int16Property => "Int16Property"@,
        PropertyKind::Int64Property => "Int64Property"@,
        PropertyKind::UInt16Property => "UInt16Property"@,
        PropertyKind::UInt32Property => "UInt32Property"@,
        PropertyKind::UInt64Property => "UInt64Property"@,
        PropertyKind::FloatProperty => "FloatProperty"@,
        PropertyKind::DoubleProperty => "DoubleProperty"@,
        PropertyKind::MulticastDelegateProperty => "MulticastDelegateProperty"@,
        PropertyKind::ViewTargetBlendParamsProperty => "ViewTargetBlendParams"@,
        PropertyKind::StrProperty => "StrProperty"@,
        PropertyKind::NameProperty => "NameProperty"@,
        PropertyKind::ObjectProperty => "ObjectProperty"@,
    }
}

/// The kind of property that a name stands for, if any.
#[verifier::opaque]
pub open spec fn kind_of(name: Seq<char>) -> Option<PropertyKind> {
    if name == "BoolProperty"@ {
        Some(PropertyKind::BoolProperty)
    } else if name == "Int8Property"@ {
        Some(PropertyKind::Int8Property)
    } else if name == "ByteProperty"@ {
        Some(PropertyKind::ByteProperty)
    } else if name == "IntProperty"@ {
        Some(PropertyKind::IntProperty)
    } else if name == "Int16Property"@ {
        Some(PropertyKind::Int16Property)
    } else if name == "Int64Property"@ {
        Some(PropertyKind::Int64Property)
    } else if name == "UInt16Property"@ {
        Some(PropertyKind::UInt16Property)
    } else if name == "UInt32Property"@ {
        Some(PropertyKind::UInt32Property)
    } else if name == "UInt64Property"@ {
        Some(PropertyKind::UInt64Property)
    } else if name == "FloatProperty"@ {
        Some(PropertyKind::FloatProperty)
    } else if name == "DoubleProperty"@ {
        Some(PropertyKind::DoubleProperty)
    } else if name == "MulticastDelegateProperty"@ {
        Some(PropertyKind::MulticastDelegateProperty)
    } else if name == "ViewTargetBlendParams"@ {
        Some(PropertyKind::ViewTargetBlendParamsProperty)
    } else if name == "StrProperty"@ {
        Some(PropertyKind::StrProperty)
    } else if name == "NameProperty"@ {
        Some(PropertyKind::NameProperty)
    } else if name == "ObjectProperty"@ {
        Some(PropertyKind::ObjectProperty)
    } else {
        None
    }
}

/// A property of any kind.
#[derive(Clone, Debug, PartialEq, Eq, Hash)]
pub enum Property {
    BoolProperty(BoolProperty),
    Int8Property(Int8Property),
    ByteProperty(ByteProperty),
    IntProperty(IntProperty),
    Int16Property(Int16Property),
    Int64Property(Int64Property),
    UInt16Property(UInt16Property),
    UInt32Property(UInt32Property),
    UInt64Property(UInt64Property),
    FloatProperty(FloatProperty),
    DoubleProperty(DoubleProperty),
    MulticastDelegateProperty(MulticastDelegateProperty),
    ViewTargetBlendParamsProperty(ViewTargetBlendParamsProperty),
    StrProperty(StrProperty),
    NameProperty(NameProperty),
    ObjectProperty(ObjectProperty),
}

/// What a [`Property`] stands for.
pub enum PropertyView {
    BoolProperty(ScalarView<bool>),
    Int8Property(ScalarView<i8>),
    ByteProperty(BytePropertyView),
    IntProperty(ScalarView<i32>),
    Int16Property(ScalarView<i16>),
    Int64Property(ScalarView<i64>),
    UInt16Property(ScalarView<u16>),
    UInt32Property(ScalarView<u32>),
    UInt64Property(ScalarView<u64>),
    FloatProperty(ScalarView<u32>),
    DoubleProperty(ScalarView<u64>),
    MulticastDelegateProperty(MulticastDelegatePropertyView),
    ViewTargetBlendParamsProperty(ViewTargetBlendParamsPropertyView),
    StrProperty(StrPropertyView),
    NameProperty(NamePropertyView),
    ObjectProperty(ObjectPropertyView),
}

impl DeepView for Property {
    type V = PropertyView;

    open spec fn deep_view(&self) -> PropertyView {
        match self {
            Property::BoolProperty(x) => PropertyView::BoolProperty(x.deep_view()),
            Property::Int8Property(x) => PropertyView::Int8Property(x.deep_view()),
            Property::ByteProperty(x) => PropertyView::ByteProperty(x.deep_view()),
            Property::IntProperty(x) => PropertyView::IntProperty(x.deep_view()),
            Property::Int16Property(x) => PropertyView::Int16Property(x.deep_view()),
            Property::Int64Property(x) => PropertyView::Int64Property(x.deep_view()),
            Property::UInt16Property(x) => PropertyView::UInt16Property(x.deep_view()),
            Property::UInt32Property(x) => PropertyView::UInt32Property(x.deep_view()),
            Property::UInt64Property(x) => PropertyView::UInt64Property(x.deep_view()),
            Property::FloatProperty(x) => PropertyView::FloatProperty(x.deep_view()),
            Property::DoubleProperty(x) => PropertyView::DoubleProperty(x.deep_view()),
            Property::MulticastDelegateProperty(x) => PropertyView::MulticastDelegateProperty(
                x.deep_view(),
            ),
            Property::ViewTargetBlendParamsProperty(x) => {
                PropertyView::ViewTargetBlendParamsProperty(x.deep_view())
            },
            Property::StrProperty(x) => PropertyView::StrProperty(x.deep_view()),
            Property::NameProperty(x) => PropertyView::NameProperty(x.deep_view()),
            Property::ObjectProperty(x) => PropertyView::ObjectProperty(x.deep_view()),
        }
    }
}

impl PropertyView {
    pub open spec fn kind(self) -> PropertyKind {
        match self {
            PropertyView::BoolProperty(_) => PropertyKind::BoolProperty,
            PropertyView::Int8Property(_) => PropertyKind::Int8Property,
            PropertyView::ByteProperty(_) => PropertyKind::ByteProperty,
            PropertyView::IntProperty(_) => PropertyKind::IntProperty,
            PropertyView::Int16Property(_) => PropertyKind::Int16Property,
            PropertyView::Int64Property(_) => PropertyKind::Int64Property,
            PropertyView::UInt16Property(_) => PropertyKind::UInt16Property,
            PropertyView::UInt32Property(_) => PropertyKind::UInt32Property,
            PropertyView::UInt64Property(_) => PropertyKind::UInt64Property,
            PropertyView::FloatProperty(_) => PropertyKind::FloatProperty,
            PropertyView::DoubleProperty(_) => PropertyKind::DoubleProperty,
            PropertyView::MulticastDelegateProperty(_) => PropertyKind::MulticastDelegateProperty,
            PropertyView::ViewTargetBlendParamsProperty(_) => {
                PropertyKind::ViewTargetBlendParamsProperty
            },
            PropertyView::StrProperty(_) => PropertyKind::StrProperty,
            PropertyView::NameProperty(_) => PropertyKind::NameProperty,
            PropertyView::ObjectProperty(_) => PropertyKind::ObjectProperty,
        }
    }

    pub open spec fn name(self) -> FNameView {
        match self {
            PropertyView::BoolProperty(x) => x.name,
            PropertyView::Int8Property(x) => x.name,
            PropertyView::ByteProperty(x) => x.name,
            PropertyView::IntProperty(x) => x.name,
            PropertyView::Int16Property(x) => x.name,
            PropertyView::Int64Property(x) => x.name,
            PropertyView::UInt16Property(x) => x.name,
            PropertyView::UInt32Property(x) => x.name,
            PropertyView::UInt64Property(x) => x.name,
            PropertyView::FloatProperty(x) => x.name,
            PropertyView::DoubleProperty(x) => x.name,
            PropertyView::MulticastDelegateProperty(x) => x.name,
            PropertyView::ViewTargetBlendParamsProperty(x) => x.name,
            PropertyView::StrProperty(x) => x.name,
            PropertyView::NameProperty(x) => x.name,
            PropertyView::ObjectProperty(x) => x.name,
        }
    }

    pub open spec fn duplication_index(self) -> i32 {
        match self {
            PropertyView::BoolProperty(x) => x.duplication_index,
            PropertyView::Int8Property(x) => x.duplication_index,
            PropertyView::ByteProperty(x) => x.duplication_index,
            PropertyView::IntProperty(x) => x.duplication_index,
            PropertyView::Int16Property(x) => x.duplication_index,
            PropertyView::Int64Property(x) => x.duplication_index,
            PropertyView::UInt16Property(x) => x.duplication_index,
            PropertyView::UInt32Property(x) => x.duplication_index,
            PropertyView::UInt64Property(x) => x.duplication_index,
            PropertyView::FloatProperty(x) => x.duplication_index,
            PropertyView::DoubleProperty(x) => x.duplication_index,
            PropertyView::MulticastDelegateProperty(x) => x.duplication_index,
            PropertyView::ViewTargetBlendParamsProperty(x) => x.duplication_index,
            PropertyView::StrProperty(x) => x.duplication_index,
            PropertyView::NameProperty(x) => x.duplication_index,
            PropertyView::ObjectProperty(x) => x.duplication_index,
        }
    }

    /// The count that writing the value of the property reports.
    pub open spec fn written(self) -> usize {
        match self {
            PropertyView::BoolProperty(x) => 0usize,
            PropertyView::Int8Property(x) => 1usize,
            PropertyView::ByteProperty(x) => byte_width(x.byte_type),
            PropertyView::IntProperty(x) => 4usize,
            PropertyView::Int16Property(x) => 2usize,
            PropertyView::Int64Property(x) => 8usize,
            PropertyView::UInt16Property(x) => 2usize,
            PropertyView::UInt32Property(x) => 4usize,
            PropertyView::UInt64Property(x) => 8usize,
            PropertyView::FloatProperty(x) => 4usize,
            PropertyView::DoubleProperty(x) => 8usize,
            PropertyView::MulticastDelegateProperty(x) => multicast_delegate_written(x.value.len()),
            PropertyView::ViewTargetBlendParamsProperty(x) => 13usize,
            PropertyView::StrProperty(x) => string_written(x.value),
            PropertyView::NameProperty(x) => 8usize,
            PropertyView::ObjectProperty(x) => 4usize,
        }
    }
}

/// The property of the kind named `property_type` at `pos`, behind its tag.
#[verifier::opaque]
pub open spec fn parse_property_of(
    env: Env,
    bytes: Seq<u8>,
    pos: u64,
    property_type: Seq<char>,
    name: FNameView,
    include_header: bool,
    length: i64,
    fallback_length: i64,
    duplication_index: i32,
) -> Parsed<PropertyView> {
    match kind_of(property_type) {
        None => Err(Error::Property(PropertyError::UnknownType)),
        Some(PropertyKind::BoolProperty) => match parse_bool_property(
            env,
            bytes,
            pos,
            name,
            include_header,
            duplication_index,
        ) {
            Err(e) => Err(e),
            Ok((x, end)) => Ok((PropertyView::BoolProperty(x), end)),
        },
        Some(PropertyKind::Int8Property) => match parse_int8_property(
            env,
            bytes,
            pos,
            name,
            include_header,
            duplication_index,
        ) {
            Err(e) => Err(e),
            Ok((x, end)) => Ok((PropertyView::Int8Property(x), end)),
        },
        Some(PropertyKind::ByteProperty) => match parse_byte_property(
            env,
            bytes,
            pos,
            name,
            include_header,
            length,
            fallback_length,
            duplication_index,
        ) {
            Err(e) => Err(e),
            Ok((x, end)) => Ok((PropertyView::ByteProperty(x), end)),
        },
        Some(PropertyKind::IntProperty) => match parse_int_property(
            env,
            bytes,
            pos,
            name,
            include_header,
            duplication_index,
        ) {
            Err(e) => Err(e),
            Ok((x, end)) => Ok((PropertyView::IntProperty(x), end)),
        },
        Some(PropertyKind::Int16Property) => match parse_int16_property(
            env,
            bytes,
            pos,
            name,
            include_header,
            duplication_index,
        ) {
            Err(e) => Err(e),
            Ok((x, end)) => Ok((PropertyView::Int16Property(x), end)),
        },
        Some(PropertyKind::Int64Property) => match parse_int64_property(
            env,
            bytes,
            pos,
            name,
            include_header,
            duplication_index,
        ) {
            Err(e) => Err(e),
            Ok((x, end)) => Ok((PropertyView::Int64Property(x), end)),
        },
        Some(PropertyKind::UInt16Property) => match parse_uint16_property(
            env,
            bytes,
            pos,
            name,
            include_header,
            duplication_index,
        ) {
            Err(e) => Err(e),
            Ok((x, end)) => Ok((PropertyView::UInt16Property(x), end)),
        },
        Some(PropertyKind::UInt32Property) => match parse_uint32_property(
            env,
            bytes,
            pos,
            name,
            include_header,
            duplication_index,
        ) {
            Err(e) => Err(e),
            Ok((x, end)) => Ok((PropertyView::UInt32Property(x), end)),
        },
        Some(PropertyKind::UInt64Property) => match parse_uint64_property(
            env,
            bytes,
            pos,
            name,
            include_header,
            duplication_index,
        ) {
            Err(e) => Err(e),
            Ok((x, end)) => Ok((PropertyView::UInt64Property(x), end)),
        },
        Some(PropertyKind::FloatProperty) => match parse_float_property(
            env,
            bytes,
            pos,
            name,
            include_header,
            duplication_index,
        ) {
            Err(e) => Err(e),
            Ok((x, end)) => Ok((PropertyView::FloatProperty(x), end)),
        },
        Some(PropertyKind::DoubleProperty) => match parse_double_property(
            env,
            bytes,
            pos,
            name,
            include_header,
            duplication_index,
        ) {
            Err(e) => Err(e),
            Ok((x, end)) => Ok((PropertyView::DoubleProperty(x), end)),
        },
        Some(PropertyKind::MulticastDelegateProperty) => match parse_multicast_delegate_property(
            env,
            bytes,
            pos,
            name,
            include_header,
            duplication_index,
        ) {
            Err(e) => Err(e),
            Ok((x, end)) => Ok((PropertyView::MulticastDelegateProperty(x), end)),
        },
        Some(PropertyKind::ViewTargetBlendParamsProperty) => {
            match parse_view_target_blend_params_property(
                env,
                bytes,
                pos,
                name,
                include_header,
                duplication_index,
            ) {
                Err(e) => Err(e),
                Ok((x, end)) => Ok((PropertyView::ViewTargetBlendParamsProperty(x), end)),
            }
        },
        Some(PropertyKind::StrProperty) => match parse_str_property(
            env,
            bytes,
            pos,
            name,
            include_header,
            duplication_index,
        ) {
            Err(e) => Err(e),
            Ok((x, end)) => Ok((PropertyView::StrProperty(x), end)),
        },
        Some(PropertyKind::NameProperty) => match parse_name_property(
            env,
            bytes,
            pos,
            name,
            include_header,
            duplication_index,
        ) {
            Err(e) => Err(e),
            Ok((x, end)) => Ok((PropertyView::NameProperty(x), end)),
        },
        Some(PropertyKind::ObjectProperty) => match parse_object_property(
            env,
            bytes,
            pos,
            name,
            include_header,
            duplication_index,
        ) {
            Err(e) => Err(e),
            Ok((x, end)) => Ok((PropertyView::ObjectProperty(x), end)),
        },
    }
}

/// Every kind of property is the kind that its name stands for.
pub proof fn lemma_kind_names(kind: PropertyKind)
    ensures
        kind_of(kind_name(kind)) == Some(kind),
{
    reveal(kind_of);
    reveal_strlit("BoolProperty");
    assert("BoolProperty"@.len() == 12);
    assert("BoolProperty"@[0] == 'B');
    assert("BoolProperty"@[1] == 'o');
    assert("BoolProperty"@[3] == 'l');
    assert("BoolProperty"@[4] == 'P');
    reveal_strlit("Int8Property");
    assert("Int8Property"@.len() == 12);
    assert("Int8Property"@[0] == 'I');
    assert("Int8Property"@[1] == 'n');
    assert("Int8Property"@[3] == '8');
    assert("Int8Property"@[4] == 'P');
    reveal_strlit("ByteProperty");
    assert("ByteProperty"@.len() == 12);
    assert("ByteProperty"@[0] == 'B');
    assert("ByteProperty"@[1] == 'y');
    assert("ByteProperty"@[3] == 'e');
    assert("ByteProperty"@[4] == 'P');
    reveal_strlit("IntProperty");
    assert("IntProperty"@.len() == 11);
    assert("IntProperty"@[0] == 'I');
    assert("IntProperty"@[1] == 'n');
    assert("IntProperty"@[3] == 'P');
    assert("IntProperty"@[4] == 'r');
    reveal_strlit("Int16Property");
    assert("Int16Property"@.len() == 13);
    assert("Int16Property"@[0] == 'I');
    assert("Int16Property"@[1] == 'n');
    assert("Int16Property"@[3] == '1');
    assert("Int16Property"@[4] == '6');
    reveal_strlit("Int64Property");
    assert("Int64Property"@.len() == 13);
    assert("Int64Property"@[0] == 'I');
    assert("Int64Property"@[1] == 'n');
    assert("Int64Property"@[3] == '6');
    assert("Int64Property"@[4] == '4');
    reveal_strlit("UInt16Property");
    assert("UInt16Property"@.len() == 14);
    assert("UInt16Property"@[0] == 'U');
    assert("UInt16Property"@[1] == 'I');
    assert("UInt16Property"@[3] == 't');
    assert("UInt16Property"@[4] == '1');
    reveal_strlit("UInt32Property");
    assert("UInt32Property"@.len() == 14);
    assert("UInt32Property"@[0] == 'U');
    assert("UInt32Property"@[1] == 'I');
    assert("UInt32Property"@[3] == 't');
    assert("UInt32Property"@[4] == '3');
    reveal_strlit("UInt64Property");
    assert("UInt64Property"@.len() == 14);
    assert("UInt64Property"@[0] == 'U');
    assert("UInt64Property"@[1] == 'I');
    assert("UInt64Property"@[3] == 't');
    assert("UInt64Property"@[4] == '6');
    reveal_strlit("FloatProperty");
    assert("FloatProperty"@.len() == 13);
    assert("FloatProperty"@[0] == 'F');
    assert("FloatProperty"@[1] == 'l');
    assert("FloatProperty"@[3] == 'a');
    assert("FloatProperty"@[4] == 't');
    reveal_strlit("DoubleProperty");
    assert("DoubleProperty"@.len() == 14);
    assert("DoubleProperty"@[0] == 'D');
    assert("DoubleProperty"@[1] == 'o');
    assert("DoubleProperty"@[3] == 'b');
    assert("DoubleProperty"@[4] == 'l');
    reveal_strlit("MulticastDelegateProperty");
    assert("MulticastDelegateProperty"@.len() == 25);
    assert("MulticastDelegateProperty"@[0] == 'M');
    assert("MulticastDelegateProperty"@[1] == 'u');
    assert("MulticastDelegateProperty"@[3] == 't');
    assert("MulticastDelegateProperty"@[4] == 'i');
    reveal_strlit("ViewTargetBlendParams");
    assert("ViewTargetBlendParams"@.len() == 21);
    assert("ViewTargetBlendParams"@[0] == 'V');
    assert("ViewTargetBlendParams"@[1] == 'i');
    assert("ViewTargetBlendParams"@[3] == 'w');
    assert("ViewTargetBlendParams"@[4] == 'T');
    reveal_strlit("StrProperty");
    assert("StrProperty"@.len() == 11);
    assert("StrProperty"@[0] == 'S');
    reveal_strlit("NameProperty");
    assert("NameProperty"@.len() == 12);
    assert("NameProperty"@[0] == 'N');
    reveal_strlit("ObjectProperty");
    assert("ObjectProperty"@.len() == 14);
    assert("ObjectProperty"@[0] == 'O');
}

/// Whether the value of a property is read back as it was written.
#[verifier::opaque]
pub open spec fn payload_kept(
    reading: Env,
    writing: Env,
    v: PropertyView,
    include_header: bool,
) -> bool {
    match v {
        PropertyView::BoolProperty(x) => guid_kept(writing, x.property_guid, include_header),
        PropertyView::Int8Property(x) => guid_kept(writing, x.property_guid, include_header),
        PropertyView::ByteProperty(x) => byte_property_kept(writing, x, include_header),
        PropertyView::IntProperty(x) => guid_kept(writing, x.property_guid, include_header),
        PropertyView::Int16Property(x) => guid_kept(writing, x.property_guid, include_header),
        PropertyView::Int64Property(x) => guid_kept(writing, x.property_guid, include_header),
        PropertyView::UInt16Property(x) => guid_kept(writing, x.property_guid, include_header),
        PropertyView::UInt32Property(x) => guid_kept(writing, x.property_guid, include_header),
        PropertyView::UInt64Property(x) => guid_kept(writing, x.property_guid, include_header),
        PropertyView::FloatProperty(x) => guid_kept(writing, x.property_guid, include_header),
        PropertyView::DoubleProperty(x) => guid_kept(writing, x.property_guid, include_header),
        PropertyView::MulticastDelegateProperty(x) => {
            &&& guid_kept(writing, x.property_guid, include_header)
            &&& x.value.len() <= i32::MAX
            &&& forall|k: int|
                0 <= k < x.value.len() ==> name_kept(
                    reading,
                    writing,
                    #[trigger] x.value[k].delegate,
                )
        },
        PropertyView::ViewTargetBlendParamsProperty(x) => guid_kept(
            writing,
            x.property_guid,
            include_header,
        ),
        PropertyView::StrProperty(x) => str_property_kept(reading, writing, x, include_header),
        PropertyView::NameProperty(x) => name_property_kept(reading, writing, x, include_header),
        PropertyView::ObjectProperty(x) => object_property_kept(
            reading,
            writing,
            x,
            include_header,
        ),
    }
}

/// The value of a property of this kind that was written is read back
/// under the name of its kind.
proof fn lemma_payload_bool(
    reading: Env,
    writing: Env,
    bytes: Seq<u8>,
    pos: u64,
    x: ScalarView<bool>,
    include_header: bool,
    fallback_length: i64,
)
    requires
        paired(reading, writing),
        bytes.len() <= u64::MAX,
        ser_payload(writing, PropertyView::BoolProperty(x), include_header) is Ok,
        has_at(
            bytes,
            pos as int,
            ser_payload(writing, PropertyView::BoolProperty(x), include_header)->Ok_0,
        ),
        payload_kept(reading, writing, PropertyView::BoolProperty(x), include_header),
    ensures
        parse_property_of(
            reading,
            bytes,
            pos,
            kind_name(PropertyKind::BoolProperty),
            x.name,
            include_header,
            (PropertyView::BoolProperty(x).written() as i32) as i64,
            fallback_length,
            x.duplication_index,
        ) == Ok::<(PropertyView, u64), Error>(
            (
                PropertyView::BoolProperty(x),
                (pos + ser_payload(
                    writing,
                    PropertyView::BoolProperty(x),
                    include_header,
                )->Ok_0.len()) as u64,
            ),
        ),
{
    reveal(parse_property_of);
    reveal(ser_payload);
    reveal(payload_kept);
    lemma_kind_names(PropertyKind::BoolProperty);
    lemma_bool_property_round_trip(reading, writing, bytes, pos, x, include_header);
}

/// The value of a property of this kind that was written is read back
/// under the name of its kind.
proof fn lemma_payload_int8(
    reading: Env,
    writing: Env,
    bytes: Seq<u8>,
    pos: u64,
    x: ScalarView<i8>,
    include_header: bool,
    fallback_length: i64,
)
    requires
        paired(reading, writing),
        bytes.len() <= u64::MAX,
        ser_payload(writing, PropertyView::Int8Property(x), include_header) is Ok,
        has_at(
            bytes,
            pos as int,
            ser_payload(writing, PropertyView::Int8Property(x), include_header)->Ok_0,
        ),
        payload_kept(reading, writing, PropertyView::Int8Property(x), include_header),
    ensures
        parse_property_of(
            reading,
            bytes,
            pos,
            kind_name(PropertyKind::Int8Property),
            x.name,
            include_header,
            (PropertyView::Int8Property(x).written() as i32) as i64,
            fallback_length,
            x.duplication_index,
        ) == Ok::<(PropertyView, u64), Error>(
            (
                PropertyView::Int8Property(x),
                (pos + ser_payload(
                    writing,
                    PropertyView::Int8Property(x),
                    include_header,
                )->Ok_0.len()) as u64,
            ),
        ),
{
    reveal(parse_property_of);
    reveal(ser_payload);
    reveal(payload_kept);
    lemma_kind_names(PropertyKind::Int8Property);
    lemma_int8_property_round_trip(reading, writing, bytes, pos, x, include_header);
}

/// The value of a property of this kind that was written is read back
/// under the name of its kind.
proof fn lemma_payload_byte(
    reading: Env,
    writing: Env,
    bytes: Seq<u8>,
    pos: u64,
    x: BytePropertyView,
    include_header: bool,
    fallback_length: i64,
)
    requires
        paired(reading, writing),
        bytes.len() <= u64::MAX,
        ser_payload(writing, PropertyView::ByteProperty(x), include_header) is Ok,
        has_at(
            bytes,
            pos as int,
            ser_payload(writing, PropertyView::ByteProperty(x), include_header)->Ok_0,
        ),
        payload_kept(reading, writing, PropertyView::ByteProperty(x), include_header),
    ensures
        parse_property_of(
            reading,
            bytes,
            pos,
            kind_name(PropertyKind::ByteProperty),
            x.name,
            include_header,
            (PropertyView::ByteProperty(x).written() as i32) as i64,
            fallback_length,
            x.duplication_index,
        ) == Ok::<(PropertyView, u64), Error>(
            (
                PropertyView::ByteProperty(x),
                (pos + ser_payload(
                    writing,
                    PropertyView::ByteProperty(x),
                    include_header,
                )->Ok_0.len()) as u64,
            ),
        ),
{
    reveal(parse_property_of);
    reveal(ser_payload);
    reveal(payload_kept);
    lemma_kind_names(PropertyKind::ByteProperty);
    lemma_byte_property_round_trip(
        reading,
        writing,
        bytes,
        pos,
        x,
        include_header,
        fallback_length,
    );
}

/// The value of a property of this kind that was written is read back
/// under the name of its kind.
proof fn lemma_payload_int(
    reading: Env,
    writing: Env,
    bytes: Seq<u8>,
    pos: u64,
    x: ScalarView<i32>,
    include_header: bool,
    fallback_length: i64,
)
    requires
        paired(reading, writing),
        bytes.len() <= u64::MAX,
        ser_payload(writing, PropertyView::IntProperty(x), include_header) is Ok,
        has_at(
            bytes,
            pos as int,
            ser_payload(writing, PropertyView::IntProperty(x), include_header)->Ok_0,
        ),
        payload_kept(reading, writing, PropertyView::IntProperty(x), include_header),
    ensures
        parse_property_of(
            reading,
            bytes,
            pos,
            kind_name(PropertyKind::IntProperty),
            x.name,
            include_header,
            (PropertyView::IntProperty(x).written() as i32) as i64,
            fallback_length,
            x.duplication_index,
        ) == Ok::<(PropertyView, u64), Error>(
            (
                PropertyView::IntProperty(x),
                (pos + ser_payload(
                    writing,
                    PropertyView::IntProperty(x),
                    include_header,
                )->Ok_0.len()) as u64,
            ),
        ),
{
    reveal(parse_property_of);
    reveal(ser_payload);
    reveal(payload_kept);
    lemma_kind_names(PropertyKind::IntProperty);
    lemma_int_property_round_trip(reading, writing, bytes, pos, x, include_header);
}

/// The value of a property of this kind that was written is read back
/// under the name of its kind.
proof fn lemma_payload_int16(
    reading: Env,
    writing: Env,
    bytes: Seq<u8>,
    pos: u64,
    x: ScalarView<i16>,
    include_header: bool,
    fallback_length: i64,
)
    requires
        paired(reading, writing),
        bytes.len() <= u64::MAX,
        ser_payload(writing, PropertyView::Int16Property(x), include_header) is Ok,
        has_at(
            bytes,
            pos as int,
            ser_payload(writing, PropertyView::Int16Property(x), include_header)->Ok_0,
        ),
        payload_kept(reading, writing, PropertyView::Int16Property(x), include_header),
    ensures
        parse_property_of(
            reading,
            bytes,
            pos,
            kind_name(PropertyKind::Int16Property),
            x.name,
            include_header,
            (PropertyView::Int16Property(x).written() as i32) as i64,
            fallback_length,
            x.duplication_index,
        ) == Ok::<(PropertyView, u64), Error>(
            (
                PropertyView::Int16Property(x),
                (pos + ser_payload(
                    writing,
                    PropertyView::Int16Property(x),
                    include_header,
                )->Ok_0.len()) as u64,
            ),
        ),
{
    reveal(parse_property_of);
    reveal(ser_payload);
    reveal(payload_kept);
    lemma_kind_names(PropertyKind::Int16Property);
    lemma_int16_property_round_trip(reading, writing, bytes, pos, x, include_header);
}

/// The value of a property of this kind that was written is read back
/// under the name of its kind.
proof fn lemma_payload_int64(
    reading: Env,
    writing: Env,
    bytes: Seq<u8>,
    pos: u64,
    x: ScalarView<i64>,
    include_header: bool,
    fallback_length: i64,
)
    requires
        paired(reading, writing),
        bytes.len() <= u64::MAX,
        ser_payload(writing, PropertyView::Int64Property(x), include_header) is Ok,
        has_at(
            bytes,
            pos as int,
            ser_payload(writing, PropertyView::Int64Property(x), include_header)->Ok_0,
        ),
        payload_kept(reading, writing, PropertyView::Int64Property(x), include_header),
    ensures
        parse_property_of(
            reading,
            bytes,
            pos,
            kind_name(PropertyKind::Int64Property),
            x.name,
            include_header,
            (PropertyView::Int64Property(x).written() as i32) as i64,
            fallback_length,
            x.duplication_index,
        ) == Ok::<(PropertyView, u64), Error>(
            (
                PropertyView::Int64Property(x),
                (pos + ser_payload(
                    writing,
                    PropertyView::Int64Property(x),
                    include_header,
                )->Ok_0.len()) as u64,
            ),
        ),
{
    reveal(parse_property_of);
    reveal(ser_payload);
    reveal(payload_kept);
    lemma_kind_names(PropertyKind::Int64Property);
    lemma_int64_property_round_trip(reading, writing, bytes, pos, x, include_header);
}

/// The value of a property of this kind that was written is read back
/// under the name of its kind.
proof fn lemma_payload_uint16(
    reading: Env,
    writing: Env,
    bytes: Seq<u8>,
    pos: u64,
    x: ScalarView<u16>,
    include_header: bool,
    fallback_length: i64,
)
    requires
        paired(reading, writing),
        bytes.len() <= u64::MAX,
        ser_payload(writing, PropertyView::UInt16Property(x), include_header) is Ok,
        has_at(
            bytes,
            pos as int,
            ser_payload(writing, PropertyView::UInt16Property(x), include_header)->Ok_0,
        ),
        payload_kept(reading, writing, PropertyView::UInt16Property(x), include_header),
    ensures
        parse_property_of(
            reading,
            bytes,
            pos,
            kind_name(PropertyKind::UInt16Property),
            x.name,
            include_header,
            (PropertyView::UInt16Property(x).written() as i32) as i64,
            fallback_length,
            x.duplication_index,
        ) == Ok::<(PropertyView, u64), Error>(
            (
                PropertyView::UInt16Property(x),
                (pos + ser_payload(
                    writing,
                    PropertyView::UInt16Property(x),
                    include_header,
                )->Ok_0.len()) as u64,
            ),
        ),
{
    reveal(parse_property_of);
    reveal(ser_payload);
    reveal(payload_kept);
    lemma_kind_names(PropertyKind::UInt16Property);
    lemma_uint16_property_round_trip(reading, writing, bytes, pos, x, include_header);
}

/// The value of a property of this kind that was written is read back
/// under the name of its kind.
proof fn lemma_payload_uint32(
    reading: Env,
    writing: Env,
    bytes: Seq<u8>,
    pos: u64,
    x: ScalarView<u32>,
    include_header: bool,
    fallback_length: i64,
)
    requires
        paired(reading, writing),
        bytes.len() <= u64::MAX,
        ser_payload(writing, PropertyView::UInt32Property(x), include_header) is Ok,
        has_at(
            bytes,
            pos as int,
            ser_payload(writing, PropertyView::UInt32Property(x), include_header)->Ok_0,
        ),
        payload_kept(reading, writing, PropertyView::UInt32Property(x), include_header),
    ensures
        parse_property_of(
            reading,
            bytes,
            pos,
            kind_name(PropertyKind::UInt32Property),
            x.name,
            include_header,
            (PropertyView::UInt32Property(x).written() as i32) as i64,
            fallback_length,
            x.duplication_index,
        ) == Ok::<(PropertyView, u64), Error>(
            (
                PropertyView::UInt32Property(x),
                (pos + ser_payload(
                    writing,
                    PropertyView::UInt32Property(x),
                    include_header,
                )->Ok_0.len()) as u64,
            ),
        ),
{
    reveal(parse_property_of);
    reveal(ser_payload);
    reveal(payload_kept);
    lemma_kind_names(PropertyKind::UInt32Property);
    lemma_uint32_property_round_trip(reading, writing, bytes, pos, x, include_header);
}

/// The value of a property of this kind that was written is read back
/// under the name of its kind.
proof fn lemma_payload_uint64(
    reading: Env,
    writing: Env,
    bytes: Seq<u8>,
    pos: u64,
    x: ScalarView<u64>,
    include_header: bool,
    fallback_length: i64,
)
    requires
        paired(reading, writing),
        bytes.len() <= u64::MAX,
        ser_payload(writing, PropertyView::UInt64Property(x), include_header) is Ok,
        has_at(
            bytes,
            pos as int,
            ser_payload(writing, PropertyView::UInt64Property(x), include_header)->Ok_0,
        ),
        payload_kept(reading, writing, PropertyView::UInt64Property(x), include_header),
    ensures
        parse_property_of(
            reading,
            bytes,
            pos,
            kind_name(PropertyKind::UInt64Property),
            x.name,
            include_header,
            (PropertyView::UInt64Property(x).written() as i32) as i64,
            fallback_length,
            x.duplication_index,
        ) == Ok::<(PropertyView, u64), Error>(
            (
                PropertyView::UInt64Property(x),
                (pos + ser_payload(
                    writing,
                    PropertyView::UInt64Property(x),
                    include_header,
                )->Ok_0.len()) as u64,
            ),
        ),
{
    reveal(parse_property_of);
    reveal(ser_payload);
    reveal(payload_kept);
    lemma_kind_names(PropertyKind::UInt64Property);
    lemma_uint64_property_round_trip(reading, writing, bytes, pos, x, include_header);
}

/// The value of a property of this kind that was written is read back
/// under the name of its kind.
proof fn lemma_payload_float(
    reading: Env,
    writing: Env,
    bytes: Seq<u8>,
    pos: u64,
    x: ScalarView<u32>,
    include_header: bool,
    fallback_length: i64,
)
    requires
        paired(reading, writing),
        bytes.len() <= u64::MAX,
        ser_payload(writing, PropertyView::FloatProperty(x), include_header) is Ok,
        has_at(
            bytes,
            pos as int,
            ser_payload(writing, PropertyView::FloatProperty(x), include_header)->Ok_0,
        ),
        payload_kept(reading, writing, PropertyView::FloatProperty(x), include_header),
    ensures
        parse_property_of(
            reading,
            bytes,
            pos,
            kind_name(PropertyKind::FloatProperty),
            x.name,
            include_header,
            (PropertyView::FloatProperty(x).written() as i32) as i64,
            fallback_length,
            x.duplication_index,
        ) == Ok::<(PropertyView, u64), Error>(
            (
                PropertyView::FloatProperty(x),
                (pos + ser_payload(
                    writing,
                    PropertyView::FloatProperty(x),
                    include_header,
                )->Ok_0.len()) as u64,
            ),
        ),
{
    reveal(parse_property_of);
    reveal(ser_payload);
    reveal(payload_kept);
    lemma_kind_names(PropertyKind::FloatProperty);
    lemma_float_property_round_trip(reading, writing, bytes, pos, x, include_header);
}

/// The value of a property of this kind that was written is read back
/// under the name of its kind.
proof fn lemma_payload_double(
    reading: Env,
    writing: Env,
    bytes: Seq<u8>,
    pos: u64,
    x: ScalarView<u64>,
    include_header: bool,
    fallback_length: i64,
)
    requires
        paired(reading, writing),
        bytes.len() <= u64::MAX,
        ser_payload(writing, PropertyView::DoubleProperty(x), include_header) is Ok,
        has_at(
            bytes,
            pos as int,
            ser_payload(writing, PropertyView::DoubleProperty(x), include_header)->Ok_0,
        ),
        payload_kept(reading, writing, PropertyView::DoubleProperty(x), include_header),
    ensures
        parse_property_of(
            reading,
            bytes,
            pos,
            kind_name(PropertyKind::DoubleProperty),
            x.name,
            include_header,
            (PropertyView::DoubleProperty(x).written() as i32) as i64,
            fallback_length,
            x.duplication_index,
        ) == Ok::<(PropertyView, u64), Error>(
            (
                PropertyView::DoubleProperty(x),
                (pos + ser_payload(
                    writing,
                    PropertyView::DoubleProperty(x),
                    include_header,
                )->Ok_0.len()) as u64,
            ),
        ),
{
    reveal(parse_property_of);
    reveal(ser_payload);
    reveal(payload_kept);
    lemma_kind_names(PropertyKind::DoubleProperty);
    lemma_double_property_round_trip(reading, writing, bytes, pos, x, include_header);
}

/// The value of a property of this kind that was written is read back
/// under the name of its kind.
proof fn lemma_payload_multicast_delegate(
    reading: Env,
    writing: Env,
    bytes: Seq<u8>,
    pos: u64,
    x: MulticastDelegatePropertyView,
    include_header: bool,
    fallback_length: i64,
)
    requires
        paired(reading, writing),
        bytes.len() <= u64::MAX,
        ser_payload(writing, PropertyView::MulticastDelegateProperty(x), include_header) is Ok,
        has_at(
            bytes,
            pos as int,
            ser_payload(writing, PropertyView::MulticastDelegateProperty(x), include_header)->Ok_0,
        ),
        payload_kept(reading, writing, PropertyView::MulticastDelegateProperty(x), include_header),
    ensures
        parse_property_of(
            reading,
            bytes,
            pos,
            kind_name(PropertyKind::MulticastDelegateProperty),
            x.name,
            include_header,
            (PropertyView::MulticastDelegateProperty(x).written() as i32) as i64,
            fallback_length,
            x.duplication_index,
        ) == Ok::<(PropertyView, u64), Error>(
            (
                PropertyView::MulticastDelegateProperty(x),
                (pos + ser_payload(
                    writing,
                    PropertyView::MulticastDelegateProperty(x),
                    include_header,
                )->Ok_0.len()) as u64,
            ),
        ),
{
    reveal(parse_property_of);
    reveal(ser_payload);
    reveal(payload_kept);
    lemma_kind_names(PropertyKind::MulticastDelegateProperty);
    lemma_multicast_delegate_property_round_trip(reading, writing, bytes, pos, x, include_header);
}

/// The value of a property of this kind that was written is read back
/// under the name of its kind.
proof fn lemma_payload_view_target_blend_params(
    reading: Env,
    writing: Env,
    bytes: Seq<u8>,
    pos: u64,
    x: ViewTargetBlendParamsPropertyView,
    include_header: bool,
    fallback_length: i64,
)
    requires
        paired(reading, writing),
        bytes.len() <= u64::MAX,
        ser_payload(writing, PropertyView::ViewTargetBlendParamsProperty(x), include_header) is Ok,
        has_at(
            bytes,
            pos as int,
            ser_payload(
                writing,
                PropertyView::ViewTargetBlendParamsProperty(x),
                include_header,
            )->Ok_0,
        ),
        payload_kept(
            reading,
            writing,
            PropertyView::ViewTargetBlendParamsProperty(x),
            include_header,
        ),
    ensures
        parse_property_of(
            reading,
            bytes,
            pos,
            kind_name(PropertyKind::ViewTargetBlendParamsProperty),
            x.name,
            include_header,
            (PropertyView::ViewTargetBlendParamsProperty(x).written() as i32) as i64,
            fallback_length,
            x.duplication_index,
        ) == Ok::<(PropertyView, u64), Error>(
            (
                PropertyView::ViewTargetBlendParamsProperty(x),
                (pos + ser_payload(
                    writing,
                    PropertyView::ViewTargetBlendParamsProperty(x),
                    include_header,
                )->Ok_0.len()) as u64,
            ),
        ),
{
    reveal(parse_property_of);
    reveal(ser_payload);
    reveal(payload_kept);
    lemma_kind_names(PropertyKind::ViewTargetBlendParamsProperty);
    lemma_view_target_blend_params_property_round_trip(
        reading,
        writing,
        bytes,
        pos,
        x,
        include_header,
    );
}

/// The value of a property of this kind that was written is read back
/// under the name of its kind.
proof fn lemma_payload_str(
    reading: Env,
    writing: Env,
    bytes: Seq<u8>,
    pos: u64,
    x: StrPropertyView,
    include_header: bool,
    fallback_length: i64,
)
    requires
        paired(reading, writing),
        bytes.len() <= u64::MAX,
        ser_payload(writing, PropertyView::StrProperty(x), include_header) is Ok,
        has_at(
            bytes,
            pos as int,
            ser_payload(writing, PropertyView::StrProperty(x), include_header)->Ok_0,
        ),
        payload_kept(reading, writing, PropertyView::StrProperty(x), include_header),
    ensures
        parse_property_of(
            reading,
            bytes,
            pos,
            kind_name(PropertyKind::StrProperty),
            x.name,
            include_header,
            (PropertyView::StrProperty(x).written() as i32) as i64,
            fallback_length,
            x.duplication_index,
        ) == Ok::<(PropertyView, u64), Error>(
            (
                PropertyView::StrProperty(x),
                (pos + ser_payload(
                    writing,
                    PropertyView::StrProperty(x),
                    include_header,
                )->Ok_0.len()) as u64,
            ),
        ),
{
    reveal(parse_property_of);
    reveal(ser_payload);
    reveal(payload_kept);
    lemma_kind_names(PropertyKind::StrProperty);
    lemma_str_property_round_trip(reading, writing, bytes, pos, x, include_header);
}

/// The value of a property of this kind that was written is read back
/// under the name of its kind.
proof fn lemma_payload_name(
    reading: Env,
    writing: Env,
    bytes: Seq<u8>,
    pos: u64,
    x: NamePropertyView,
    include_header: bool,
    fallback_length: i64,
)
    requires
        paired(reading, writing),
        bytes.len() <= u64::MAX,
        ser_payload(writing, PropertyView::NameProperty(x), include_header) is Ok,
        has_at(
            bytes,
            pos as int,
            ser_payload(writing, PropertyView::NameProperty(x), include_header)->Ok_0,
        ),
        payload_kept(reading, writing, PropertyView::NameProperty(x), include_header),
    ensures
        parse_property_of(
            reading,
            bytes,
            pos,
            kind_name(PropertyKind::NameProperty),
            x.name,
            include_header,
            (PropertyView::NameProperty(x).written() as i32) as i64,
            fallback_length,
            x.duplication_index,
        ) == Ok::<(PropertyView, u64), Error>(
            (
                PropertyView::NameProperty(x),
                (pos + ser_payload(
                    writing,
                    PropertyView::NameProperty(x),
                    include_header,
                )->Ok_0.len()) as u64,
            ),
        ),
{
    reveal(parse_property_of);
    reveal(ser_payload);
    reveal(payload_kept);
    lemma_kind_names(PropertyKind::NameProperty);
    lemma_name_property_round_trip(reading, writing, bytes, pos, x, include_header);
}

/// The value of a property of this kind that was written is read back
/// under the name of its kind.
proof fn lemma_payload_object(
    reading: Env,
    writing: Env,
    bytes: Seq<u8>,
    pos: u64,
    x: ObjectPropertyView,
    include_header: bool,
    fallback_length: i64,
)
    requires
        paired(reading, writing),
        bytes.len() <= u64::MAX,
        ser_payload(writing, PropertyView::ObjectProperty(x), include_header) is Ok,
        has_at(
            bytes,
            pos as int,
            ser_payload(writing, PropertyView::ObjectProperty(x), include_header)->Ok_0,
        ),
        payload_kept(reading, writing, PropertyView::ObjectProperty(x), include_header),
    ensures
        parse_property_of(
            reading,
            bytes,
            pos,
            kind_name(PropertyKind::ObjectProperty),
            x.name,
            include_header,
            (PropertyView::ObjectProperty(x).written() as i32) as i64,
            fallback_length,
            x.duplication_index,
        ) == Ok::<(PropertyView, u64), Error>(
            (
                PropertyView::ObjectProperty(x),
                (pos + ser_payload(
                    writing,
                    PropertyView::ObjectProperty(x),
                    include_header,
                )->Ok_0.len()) as u64,
            ),
        ),
{
    reveal(parse_property_of);
    reveal(ser_payload);
    reveal(payload_kept);
    lemma_kind_names(PropertyKind::ObjectProperty);
    lemma_object_property_round_trip(reading, writing, bytes, pos, x, include_header);
}

/// The value of a property that was written is read back under the name
/// of its kind, the width of its value as declared length, its name and
/// its duplication index.
pub proof fn lemma_payload_round_trip(
    reading: Env,
    writing: Env,
    bytes: Seq<u8>,
    pos: u64,
    v: PropertyView,
    include_header: bool,
    fallback_length: i64,
)
    requires
        paired(reading, writing),
        bytes.len() <= u64::MAX,
        ser_payload(writing, v, include_header) is Ok,
        has_at(bytes, pos as int, ser_payload(writing, v, include_header)->Ok_0),
        payload_kept(reading, writing, v, include_header),
    ensures
        parse_property_of(
            reading,
            bytes,
            pos,
            kind_name(v.kind()),
            v.name(),
            include_header,
            (v.written() as i32) as i64,
            fallback_length,
            v.duplication_index(),
        ) == Ok::<(PropertyView, u64), Error>(
            (v, (pos + ser_payload(writing, v, include_header)->Ok_0.len()) as u64),
        ),
{
    reveal(ser_payload);
    reveal(payload_kept);
    match v {
        PropertyView::BoolProperty(x) => {
            lemma_payload_bool(reading, writing, bytes, pos, x, include_header, fallback_length);
        },
        PropertyView::Int8Property(x) => {
            lemma_payload_int8(reading, writing, bytes, pos, x, include_header, fallback_length);
        },
        PropertyView::ByteProperty(x) => {
            lemma_payload_byte(reading, writing, bytes, pos, x, include_header, fallback_length);
        },
        PropertyView::IntProperty(x) => {
            lemma_payload_int(reading, writing, bytes, pos, x, include_header, fallback_length);
        },
        PropertyView::Int16Property(x) => {
            lemma_payload_int16(reading, writing, bytes, pos, x, include_header, fallback_length);
        },
        PropertyView::Int64Property(x) => {
            lemma_payload_int64(reading, writing, bytes, pos, x, include_header, fallback_length);
        },
        PropertyView::UInt16Property(x) => {
            lemma_payload_uint16(reading, writing, bytes, pos, x, include_header, fallback_length);
        },
        PropertyView::UInt32Property(x) => {
            lemma_payload_uint32(reading, writing, bytes, pos, x, include_header, fallback_length);
        },
        PropertyView::UInt64Property(x) => {
            lemma_payload_uint64(reading, writing, bytes, pos, x, include_header, fallback_length);
        },
        PropertyView::FloatProperty(x) => {
            lemma_payload_float(reading, writing, bytes, pos, x, include_header, fallback_length);
        },
        PropertyView::DoubleProperty(x) => {
            lemma_payload_double(reading, writing, bytes, pos, x, include_header, fallback_length);
        },
        PropertyView::MulticastDelegateProperty(x) => {
            lemma_payload_multicast_delegate(
                reading,
                writing,
                bytes,
                pos,
                x,
                include_header,
                fallback_length,
            );
        },
        PropertyView::ViewTargetBlendParamsProperty(x) => {
            lemma_payload_view_target_blend_params(
                reading,
                writing,
                bytes,
                pos,
                x,
                include_header,
                fallback_length,
            );
        },
        PropertyView::StrProperty(x) => {
            lemma_payload_str(reading, writing, bytes, pos, x, include_header, fallback_length);
        },
        PropertyView::NameProperty(x) => {
            lemma_payload_name(reading, writing, bytes, pos, x, include_header, fallback_length);
        },
        PropertyView::ObjectProperty(x) => {
            lemma_payload_object(reading, writing, bytes, pos, x, include_header, fallback_length);
        },
    }
}

/// Whether a property is read back with its tag as it was written: its
/// name is not the name `None`, its name and the name of its kind are read
/// back, and its value is.
pub open spec fn property_kept(
    reading: Env,
    writing: Env,
    v: PropertyView,
    include_header: bool,
) -> bool {
    &&& !v.name().is_none()
    &&& name_kept(reading, writing, v.name())
    &&& name_kept(reading, writing, kind_fname(v.kind()))
    &&& payload_kept(reading, writing, v, include_header)
}

/// A property that was written with its tag is read back.
#[verifier::rlimit(40)]
pub proof fn lemma_property_round_trip(
    reading: Env,
    writing: Env,
    bytes: Seq<u8>,
    pos: u64,
    v: PropertyView,
    include_header: bool,
)
    requires
        paired(reading, writing),
        bytes.len() <= u64::MAX,
        ser_property(writing, v, include_header) is Ok,
        has_at(bytes, pos as int, ser_property(writing, v, include_header)->Ok_0),
        property_kept(reading, writing, v, include_header),
    ensures
        parse_property(
            reading,
            bytes,
            pos,
            include_header,
        ) == Ok::<(Option<PropertyView>, u64), Error>(
            (Some(v), (pos + ser_property(writing, v, include_header)->Ok_0.len()) as u64),
        ),
{
    lemma_enc_dec();
    let name = ser_fname(writing, v.name())->Ok_0;
    let kind = ser_fname(writing, kind_fname(v.kind()))->Ok_0;
    let length = enc_i32(v.written() as i32);
    let index = enc_i32(v.duplication_index());
    let payload = ser_payload(writing, v, include_header)->Ok_0;
    lemma_has_at_concat(bytes, pos as int, name + kind + length + index, payload);
    lemma_has_at_concat(bytes, pos as int, name + kind + length, index);
    lemma_has_at_concat(bytes, pos as int, name + kind, length);
    lemma_has_at_concat(bytes, pos as int, name, kind);
    lemma_fname_round_trip(reading, writing, bytes, pos, v.name());
    let p1 = (pos + name.len()) as u64;
    lemma_fname_round_trip(reading, writing, bytes, p1, kind_fname(v.kind()));
    let p4 = (pos + name.len() + kind.len() + 8) as u64;
    lemma_payload_round_trip(reading, writing, bytes, p4, v, include_header, 0);
}

/// A name stands for the kind of property that it names only.
pub proof fn lemma_kind_of_names(name: Seq<char>)
    ensures
        kind_of(name) matches Some(kind) ==> kind_name(kind) == name,
{
    reveal(kind_of);
}

/// The value of a property of this kind that is read can be written and
/// is read back when it is.
proof fn lemma_read_bool(
    env: Env,
    bytes: Seq<u8>,
    pos: u64,
    property_type: Seq<char>,
    name: FNameView,
    include_header: bool,
    length: i64,
    fallback_length: i64,
    duplication_index: i32,
)
    requires
        bytes.len() <= usize::MAX,
        table_kept(env),
        kind_of(property_type) == Some(PropertyKind::BoolProperty),
    ensures
        parse_property_of(
            env,
            bytes,
            pos,
            property_type,
            name,
            include_header,
            length,
            fallback_length,
            duplication_index,
        ) matches Ok((v, _)) ==> {
            &&& v.name() == name
            &&& v.duplication_index() == duplication_index
            &&& kind_name(v.kind()) == property_type
            &&& payload_kept(env, env, v, include_header)
            &&& ser_payload(env, v, include_header) is Ok
        },
{
    reveal(parse_property_of);
    reveal(payload_kept);
    reveal(ser_payload);
    lemma_kind_of_names(property_type);
}

/// The value of a property of this kind that is read can be written and
/// is read back when it is.
proof fn lemma_read_int8(
    env: Env,
    bytes: Seq<u8>,
    pos: u64,
    property_type: Seq<char>,
    name: FNameView,
    include_header: bool,
    length: i64,
    fallback_length: i64,
    duplication_index: i32,
)
    requires
        bytes.len() <= usize::MAX,
        table_kept(env),
        kind_of(property_type) == Some(PropertyKind::Int8Property),
    ensures
        parse_property_of(
            env,
            bytes,
            pos,
            property_type,
            name,
            include_header,
            length,
            fallback_length,
            duplication_index,
        ) matches Ok((v, _)) ==> {
            &&& v.name() == name
            &&& v.duplication_index() == duplication_index
            &&& kind_name(v.kind()) == property_type
            &&& payload_kept(env, env, v, include_header)
            &&& ser_payload(env, v, include_header) is Ok
        },
{
    reveal(parse_property_of);
    reveal(payload_kept);
    reveal(ser_payload);
    lemma_kind_of_names(property_type);
}

/// The value of a property of this kind that is read can be written and
/// is read back when it is.
proof fn lemma_read_byte(
    env: Env,
    bytes: Seq<u8>,
    pos: u64,
    property_type: Seq<char>,
    name: FNameView,
    include_header: bool,
    length: i64,
    fallback_length: i64,
    duplication_index: i32,
)
    requires
        bytes.len() <= usize::MAX,
        table_kept(env),
        kind_of(property_type) == Some(PropertyKind::ByteProperty),
    ensures
        parse_property_of(
            env,
            bytes,
            pos,
            property_type,
            name,
            include_header,
            length,
            fallback_length,
            duplication_index,
        ) matches Ok((v, _)) ==> {
            &&& v.name() == name
            &&& v.duplication_index() == duplication_index
            &&& kind_name(v.kind()) == property_type
            &&& payload_kept(env, env, v, include_header)
            &&& ser_payload(env, v, include_header) is Ok
        },
{
    reveal(parse_property_of);
    reveal(payload_kept);
    reveal(ser_payload);
    lemma_kind_of_names(property_type);
}

/// The value of a property of this kind that is read can be written and
/// is read back when it is.
proof fn lemma_read_int(
    env: Env,
    bytes: Seq<u8>,
    pos: u64,
    property_type: Seq<char>,
    name: FNameView,
    include_header: bool,
    length: i64,
    fallback_length: i64,
    duplication_index: i32,
)
    requires
        bytes.len() <= usize::MAX,
        table_kept(env),
        kind_of(property_type) == Some(PropertyKind::IntProperty),
    ensures
        parse_property_of(
            env,
            bytes,
            pos,
            property_type,
            name,
            include_header,
            length,
            fallback_length,
            duplication_index,
        ) matches Ok((v, _)) ==> {
            &&& v.name() == name
            &&& v.duplication_index() == duplication_index
            &&& kind_name(v.kind()) == property_type
            &&& payload_kept(env, env, v, include_header)
            &&& ser_payload(env, v, include_header) is Ok
        },
{
    reveal(parse_property_of);
    reveal(payload_kept);
    reveal(ser_payload);
    lemma_kind_of_names(property_type);
}

/// The value of a property of this kind that is read can be written and
/// is read back when it is.
proof fn lemma_read_int16(
    env: Env,
    bytes: Seq<u8>,
    pos: u64,
    property_type: Seq<char>,
    name: FNameView,
    include_header: bool,
    length: i64,
    fallback_length: i64,
    duplication_index: i32,
)
    requires
        bytes.len() <= usize::MAX,
        table_kept(env),
        kind_of(property_type) == Some(PropertyKind::Int16Property),
    ensures
        parse_property_of(
            env,
            bytes,
            pos,
            property_type,
            name,
            include_header,
            length,
            fallback_length,
            duplication_index,
        ) matches Ok((v, _)) ==> {
            &&& v.name() == name
            &&& v.duplication_index() == duplication_index
            &&& kind_name(v.kind()) == property_type
            &&& payload_kept(env, env, v, include_header)
            &&& ser_payload(env, v, include_header) is Ok
        },
{
    reveal(parse_property_of);
    reveal(payload_kept);
    reveal(ser_payload);
    lemma_kind_of_names(property_type);
}

/// The value of a property of this kind that is read can be written and
/// is read back when it is.
proof fn lemma_read_int64(
    env: Env,
    bytes: Seq<u8>,
    pos: u64,
    property_type: Seq<char>,
    name: FNameView,
    include_header: bool,
    length: i64,
    fallback_length: i64,
    duplication_index: i32,
)
    requires
        bytes.len() <= usize::MAX,
        table_kept(env),
        kind_of(property_type) == Some(PropertyKind::Int64Property),
    ensures
        parse_property_of(
            env,
            bytes,
            pos,
            property_type,
            name,
            include_header,
            length,
            fallback_length,
            duplication_index,
        ) matches Ok((v, _)) ==> {
            &&& v.name() == name
            &&& v.duplication_index() == duplication_index
            &&& kind_name(v.kind()) == property_type
            &&& payload_kept(env, env, v, include_header)
            &&& ser_payload(env, v, include_header) is Ok
        },
{
    reveal(parse_property_of);
    reveal(payload_kept);
    reveal(ser_payload);
    lemma_kind_of_names(property_type);
}

/// The value of a property of this kind that is read can be written and
/// is read back when it is.
proof fn lemma_read_uint16(
    env: Env,
    bytes: Seq<u8>,
    pos: u64,
    property_type: Seq<char>,
    name: FNameView,
    include_header: bool,
    length: i64,
    fallback_length: i64,
    duplication_index: i32,
)
    requires
        bytes.len() <= usize::MAX,
        table_kept(env),
        kind_of(property_type) == Some(PropertyKind::UInt16Property),
    ensures
        parse_property_of(
            env,
            bytes,
            pos,
            property_type,
            name,
            include_header,
            length,
            fallback_length,
            duplication_index,
        ) matches Ok((v, _)) ==> {
            &&& v.name() == name
            &&& v.duplication_index() == duplication_index
            &&& kind_name(v.kind()) == property_type
            &&& payload_kept(env, env, v, include_header)
            &&& ser_payload(env, v, include_header) is Ok
        },
{
    reveal(parse_property_of);
    reveal(payload_kept);
    reveal(ser_payload);
    lemma_kind_of_names(property_type);
}

/// The value of a property of this kind that is read can be written and
/// is read back when it is.
proof fn lemma_read_uint32(
    env: Env,
    bytes: Seq<u8>,
    pos: u64,
    property_type: Seq<char>,
    name: FNameView,
    include_header: bool,
    length: i64,
    fallback_length: i64,
    duplication_index: i32,
)
    requires
        bytes.len() <= usize::MAX,
        table_kept(env),
        kind_of(property_type) == Some(PropertyKind::UInt32Property),
    ensures
        parse_property_of(
            env,
            bytes,
            pos,
            property_type,
            name,
            include_header,
            length,
            fallback_length,
            duplication_index,
        ) matches Ok((v, _)) ==> {
            &&& v.name() == name
            &&& v.duplication_index() == duplication_index
            &&& kind_name(v.kind()) == property_type
            &&& payload_kept(env, env, v, include_header)
            &&& ser_payload(env, v, include_header) is Ok
        },
{
    reveal(parse_property_of);
    reveal(payload_kept);
    reveal(ser_payload);
    lemma_kind_of_names(property_type);
}

/// The value of a property of this kind that is read can be written and
/// is read back when it is.
proof fn lemma_read_uint64(
    env: Env,
    bytes: Seq<u8>,
    pos: u64,
    property_type: Seq<char>,
    name: FNameView,
    include_header: bool,
    length: i64,
    fallback_length: i64,
    duplication_index: i32,
)
    requires
        bytes.len() <= usize::MAX,
        table_kept(env),
        kind_of(property_type) == Some(PropertyKind::UInt64Property),
    ensures
        parse_property_of(
            env,
            bytes,
            pos,
            property_type,
            name,
            include_header,
            length,
            fallback_length,
            duplication_index,
        ) matches Ok((v, _)) ==> {
            &&& v.name() == name
            &&& v.duplication_index() == duplication_index
            &&& kind_name(v.kind()) == property_type
            &&& payload_kept(env, env, v, include_header)
            &&& ser_payload(env, v, include_header) is Ok
        },
{
    reveal(parse_property_of);
    reveal(payload_kept);
    reveal(ser_payload);
    lemma_kind_of_names(property_type);
}

/// The value of a property of this kind that is read can be written and
/// is read back when it is.
proof fn lemma_read_float(
    env: Env,
    bytes: Seq<u8>,
    pos: u64,
    property_type: Seq<char>,
    name: FNameView,
    include_header: bool,
    length: i64,
    fallback_length: i64,
    duplication_index: i32,
)
    requires
        bytes.len() <= usize::MAX,
        table_kept(env),
        kind_of(property_type) == Some(PropertyKind::FloatProperty),
    ensures
        parse_property_of(
            env,
            bytes,
            pos,
            property_type,
            name,
            include_header,
            length,
            fallback_length,
            duplication_index,
        ) matches Ok((v, _)) ==> {
            &&& v.name() == name
            &&& v.duplication_index() == duplication_index
            &&& kind_name(v.kind()) == property_type
            &&& payload_kept(env, env, v, include_header)
            &&& ser_payload(env, v, include_header) is Ok
        },
{
    reveal(parse_property_of);
    reveal(payload_kept);
    reveal(ser_payload);
    lemma_kind_of_names(property_type);
}

/// The value of a property of this kind that is read can be written and
/// is read back when it is.
proof fn lemma_read_double(
    env: Env,
    bytes: Seq<u8>,
    pos: u64,
    property_type: Seq<char>,
    name: FNameView,
    include_header: bool,
    length: i64,
    fallback_length: i64,
    duplication_index: i32,
)
    requires
        bytes.len() <= usize::MAX,
        table_kept(env),
        kind_of(property_type) == Some(PropertyKind::DoubleProperty),
    ensures
        parse_property_of(
            env,
            bytes,
            pos,
            property_type,
            name,
            include_header,
            length,
            fallback_length,
            duplication_index,
        ) matches Ok((v, _)) ==> {
            &&& v.name() == name
            &&& v.duplication_index() == duplication_index
            &&& kind_name(v.kind()) == property_type
            &&& payload_kept(env, env, v, include_header)
            &&& ser_payload(env, v, include_header) is Ok
        },
{
    reveal(parse_property_of);
    reveal(payload_kept);
    reveal(ser_payload);
    lemma_kind_of_names(property_type);
}

/// The value of a property of this kind that is read can be written and
/// is read back when it is.
proof fn lemma_read_multicast_delegate(
    env: Env,
    bytes: Seq<u8>,
    pos: u64,
    property_type: Seq<char>,
    name: FNameView,
    include_header: bool,
    length: i64,
    fallback_length: i64,
    duplication_index: i32,
)
    requires
        bytes.len() <= usize::MAX,
        table_kept(env),
        kind_of(property_type) == Some(PropertyKind::MulticastDelegateProperty),
    ensures
        parse_property_of(
            env,
            bytes,
            pos,
            property_type,
            name,
            include_header,
            length,
            fallback_length,
            duplication_index,
        ) matches Ok((v, _)) ==> {
            &&& v.name() == name
            &&& v.duplication_index() == duplication_index
            &&& kind_name(v.kind()) == property_type
            &&& payload_kept(env, env, v, include_header)
            &&& ser_payload(env, v, include_header) is Ok
        },
{
    reveal(parse_property_of);
    reveal(payload_kept);
    reveal(ser_payload);
    lemma_kind_of_names(property_type);
    lemma_multicast_delegate_property_read_is_kept(
        env,
        bytes,
        pos,
        name,
        include_header,
        duplication_index,
    );
}

/// The value of a property of this kind that is read can be written and
/// is read back when it is.
proof fn lemma_read_view_target_blend_params(
    env: Env,
    bytes: Seq<u8>,
    pos: u64,
    property_type: Seq<char>,
    name: FNameView,
    include_header: bool,
    length: i64,
    fallback_length: i64,
    duplication_index: i32,
)
    requires
        bytes.len() <= usize::MAX,
        table_kept(env),
        kind_of(property_type) == Some(PropertyKind::ViewTargetBlendParamsProperty),
    ensures
        parse_property_of(
            env,
            bytes,
            pos,
            property_type,
            name,
            include_header,
            length,
            fallback_length,
            duplication_index,
        ) matches Ok((v, _)) ==> {
            &&& v.name() == name
            &&& v.duplication_index() == duplication_index
            &&& kind_name(v.kind()) == property_type
            &&& payload_kept(env, env, v, include_header)
            &&& ser_payload(env, v, include_header) is Ok
        },
{
    reveal(parse_property_of);
    reveal(payload_kept);
    reveal(ser_payload);
    lemma_kind_of_names(property_type);
}

/// The value of a property of this kind that is read can be written and
/// is read back when it is.
proof fn lemma_read_str(
    env: Env,
    bytes: Seq<u8>,
    pos: u64,
    property_type: Seq<char>,
    name: FNameView,
    include_header: bool,
    length: i64,
    fallback_length: i64,
    duplication_index: i32,
)
    requires
        bytes.len() <= usize::MAX,
        table_kept(env),
        kind_of(property_type) == Some(PropertyKind::StrProperty),
    ensures
        parse_property_of(
            env,
            bytes,
            pos,
            property_type,
            name,
            include_header,
            length,
            fallback_length,
            duplication_index,
        ) matches Ok((v, _)) ==> {
            &&& v.name() == name
            &&& v.duplication_index() == duplication_index
            &&& kind_name(v.kind()) == property_type
            &&& payload_kept(env, env, v, include_header)
            &&& ser_payload(env, v, include_header) is Ok
        },
{
    reveal(parse_property_of);
    reveal(payload_kept);
    reveal(ser_payload);
    lemma_kind_of_names(property_type);
    if let Ok((_, p)) = parse_optional_guid(env, bytes, pos, include_header) {
        lemma_string_read_is_kept(bytes, p);
    }
}

/// The value of a property of this kind that is read can be written and
/// is read back when it is.
proof fn lemma_read_name(
    env: Env,
    bytes: Seq<u8>,
    pos: u64,
    property_type: Seq<char>,
    name: FNameView,
    include_header: bool,
    length: i64,
    fallback_length: i64,
    duplication_index: i32,
)
    requires
        bytes.len() <= usize::MAX,
        table_kept(env),
        kind_of(property_type) == Some(PropertyKind::NameProperty),
    ensures
        parse_property_of(
            env,
            bytes,
            pos,
            property_type,
            name,
            include_header,
            length,
            fallback_length,
            duplication_index,
        ) matches Ok((v, _)) ==> {
            &&& v.name() == name
            &&& v.duplication_index() == duplication_index
            &&& kind_name(v.kind()) == property_type
            &&& payload_kept(env, env, v, include_header)
            &&& ser_payload(env, v, include_header) is Ok
        },
{
    reveal(parse_property_of);
    reveal(payload_kept);
    reveal(ser_payload);
    lemma_kind_of_names(property_type);
    if let Ok((_, p)) = parse_optional_guid(env, bytes, pos, include_header) {
        lemma_fname_read_is_kept(env, bytes, p);
    }
}

/// The value of a property of this kind that is read can be written and
/// is read back when it is.
proof fn lemma_read_object(
    env: Env,
    bytes: Seq<u8>,
    pos: u64,
    property_type: Seq<char>,
    name: FNameView,
    include_header: bool,
    length: i64,
    fallback_length: i64,
    duplication_index: i32,
)
    requires
        bytes.len() <= usize::MAX,
        table_kept(env),
        kind_of(property_type) == Some(PropertyKind::ObjectProperty),
    ensures
        parse_property_of(
            env,
            bytes,
            pos,
            property_type,
            name,
            include_header,
            length,
            fallback_length,
            duplication_index,
        ) matches Ok((v, _)) ==> {
            &&& v.name() == name
            &&& v.duplication_index() == duplication_index
            &&& kind_name(v.kind()) == property_type
            &&& payload_kept(env, env, v, include_header)
            &&& ser_payload(env, v, include_header) is Ok
        },
{
    reveal(parse_property_of);
    reveal(payload_kept);
    reveal(ser_payload);
    lemma_kind_of_names(property_type);
}

/// Every value of a property that is read can be written and is read back
/// when it is, and it is a value of the kind, under the name and with the
/// duplication index that it was read for.
pub proof fn lemma_payload_read_is_kept(
    env: Env,
    bytes: Seq<u8>,
    pos: u64,
    property_type: Seq<char>,
    name: FNameView,
    include_header: bool,
    length: i64,
    fallback_length: i64,
    duplication_index: i32,
)
    requires
        bytes.len() <= usize::MAX,
        table_kept(env),
    ensures
        parse_property_of(
            env,
            bytes,
            pos,
            property_type,
            name,
            include_header,
            length,
            fallback_length,
            duplication_index,
        ) matches Ok((v, _)) ==> {
            &&& v.name() == name
            &&& v.duplication_index() == duplication_index
            &&& kind_name(v.kind()) == property_type
            &&& payload_kept(env, env, v, include_header)
            &&& ser_payload(env, v, include_header) is Ok
        },
{
    match kind_of(property_type) {
        None => {
            reveal(parse_property_of);
        },
        Some(PropertyKind::BoolProperty) => {
            lemma_read_bool(
                env,
                bytes,
                pos,
                property_type,
                name,
                include_header,
                length,
                fallback_length,
                duplication_index,
            );
        },
        Some(PropertyKind::Int8Property) => {
            lemma_read_int8(
                env,
                bytes,
                pos,
                property_type,
                name,
                include_header,
                length,
                fallback_length,
                duplication_index,
            );
        },
        Some(PropertyKind::ByteProperty) => {
            lemma_read_byte(
                env,
                bytes,
                pos,
                property_type,
                name,
                include_header,
                length,
                fallback_length,
                duplication_index,
            );
        },
        Some(PropertyKind::IntProperty) => {
            lemma_read_int(
                env,
                bytes,
                pos,
                property_type,
                name,
                include_header,
                length,
                fallback_length,
                duplication_index,
            );
        },
        Some(PropertyKind::Int16Property) => {
            lemma_read_int16(
                env,
                bytes,
                pos,
                property_type,
                name,
                include_header,
                length,
                fallback_length,
                duplication_index,
            );
        },
        Some(PropertyKind::Int64Property) => {
            lemma_read_int64(
                env,
                bytes,
                pos,
                property_type,
                name,
                include_header,
                length,
                fallback_length,
                duplication_index,
            );
        },
        Some(PropertyKind::UInt16Property) => {
            lemma_read_uint16(
                env,
                bytes,
                pos,
                property_type,
                name,
                include_header,
                length,
                fallback_length,
                duplication_index,
            );
        },
        Some(PropertyKind::UInt32Property) => {
            lemma_read_uint32(
                env,
                bytes,
                pos,
                property_type,
                name,
                include_header,
                length,
                fallback_length,
                duplication_index,
            );
        },
        Some(PropertyKind::UInt64Property) => {
            lemma_read_uint64(
                env,
                bytes,
                pos,
                property_type,
                name,
                include_header,
                length,
                fallback_length,
                duplication_index,
            );
        },
        Some(PropertyKind::FloatProperty) => {
            lemma_read_float(
                env,
                bytes,
                pos,
                property_type,
                name,
                include_header,
                length,
                fallback_length,
                duplication_index,
            );
        },
        Some(PropertyKind::DoubleProperty) => {
            lemma_read_double(
                env,
                bytes,
                pos,
                property_type,
                name,
                include_header,
                length,
                fallback_length,
                duplication_index,
            );
        },
        Some(PropertyKind::MulticastDelegateProperty) => {
            lemma_read_multicast_delegate(
                env,
                bytes,
                pos,
                property_type,
                name,
                include_header,
                length,
                fallback_length,
                duplication_index,
            );
        },
        Some(PropertyKind::ViewTargetBlendParamsProperty) => {
            lemma_read_view_target_blend_params(
                env,
                bytes,
                pos,
                property_type,
                name,
                include_header,
                length,
                fallback_length,
                duplication_index,
            );
        },
        Some(PropertyKind::StrProperty) => {
            lemma_read_str(
                env,
                bytes,
                pos,
                property_type,
                name,
                include_header,
                length,
                fallback_length,
                duplication_index,
            );
        },
        Some(PropertyKind::NameProperty) => {
            lemma_read_name(
                env,
                bytes,
                pos,
                property_type,
                name,
                include_header,
                length,
                fallback_length,
                duplication_index,
            );
        },
        Some(PropertyKind::ObjectProperty) => {
            lemma_read_object(
                env,
                bytes,
                pos,
                property_type,
                name,
                include_header,
                length,
                fallback_length,
                duplication_index,
            );
        },
    }
}

/// Every property that is read with its tag can be written with its tag,
/// and is read back when it is.
pub proof fn lemma_property_read_is_kept(env: Env, bytes: Seq<u8>, pos: u64, include_header: bool)
    requires
        bytes.len() <= usize::MAX,
        table_kept(env),
    ensures
        parse_property(env, bytes, pos, include_header) matches Ok((Some(v), _)) ==> property_kept(
            env,
            env,
            v,
            include_header,
        ) && ser_property(env, v, include_header) is Ok,
{
    if let Ok((Some(v), _)) = parse_property(env, bytes, pos, include_header) {
        let name = parse_fname(env, bytes, pos)->Ok_0.0;
        let p1 = parse_fname(env, bytes, pos)->Ok_0.1;
        let property_type = parse_fname(env, bytes, p1)->Ok_0.0;
        let p2 = parse_fname(env, bytes, p1)->Ok_0.1;
        let length = parse_i32(bytes, p2)->Ok_0.0;
        let p3 = parse_i32(bytes, p2)->Ok_0.1;
        let duplication_index = parse_i32(bytes, p3)->Ok_0.0;
        let p4 = parse_i32(bytes, p3)->Ok_0.1;
        lemma_fname_read_is_kept(env, bytes, pos);
        lemma_fname_read_is_kept(env, bytes, p1);
        lemma_payload_read_is_kept(
            env,
            bytes,
            p4,
            property_type.content,
            name,
            include_header,
            length as i64,
            0,
            duplication_index,
        );
    }
}

/// Reading the value of a property does not end before it starts.
pub proof fn lemma_property_of_monotone(
    env: Env,
    bytes: Seq<u8>,
    pos: u64,
    property_type: Seq<char>,
    name: FNameView,
    include_header: bool,
    length: i64,
    fallback_length: i64,
    duplication_index: i32,
)
    requires
        bytes.len() <= u64::MAX,
    ensures
        parse_property_of(
            env,
            bytes,
            pos,
            property_type,
            name,
            include_header,
            length,
            fallback_length,
            duplication_index,
        ) matches Ok((_, end)) ==> end >= pos,
{
    reveal(parse_property_of);
    match kind_of(property_type) {
        None => {},
        Some(PropertyKind::BoolProperty) => {
            lemma_bool_property_monotone(env, bytes, pos, name, include_header, duplication_index);
        },
        Some(PropertyKind::Int8Property) => {
            lemma_int8_property_monotone(env, bytes, pos, name, include_header, duplication_index);
        },
        Some(PropertyKind::ByteProperty) => {
            lemma_byte_property_monotone(
                env,
                bytes,
                pos,
                name,
                include_header,
                length,
                fallback_length,
                duplication_index,
            );
        },
        Some(PropertyKind::IntProperty) => {
            lemma_int_property_monotone(env, bytes, pos, name, include_header, duplication_index);
        },
        Some(PropertyKind::Int16Property) => {
            lemma_int16_property_monotone(env, bytes, pos, name, include_header, duplication_index);
        },
        Some(PropertyKind::Int64Property) => {
            lemma_int64_property_monotone(env, bytes, pos, name, include_header, duplication_index);
        },
        Some(PropertyKind::UInt16Property) => {
            lemma_uint16_property_monotone(
                env,
                bytes,
                pos,
                name,
                include_header,
                duplication_index,
            );
        },
        Some(PropertyKind::UInt32Property) => {
            lemma_uint32_property_monotone(
                env,
                bytes,
                pos,
                name,
                include_header,
                duplication_index,
            );
        },
        Some(PropertyKind::UInt64Property) => {
            lemma_uint64_property_monotone(
                env,
                bytes,
                pos,
                name,
                include_header,
                duplication_index,
            );
        },
        Some(PropertyKind::FloatProperty) => {
            lemma_float_property_monotone(env, bytes, pos, name, include_header, duplication_index);
        },
        Some(PropertyKind::DoubleProperty) => {
            lemma_double_property_monotone(
                env,
                bytes,
                pos,
                name,
                include_header,
                duplication_index,
            );
        },
        Some(PropertyKind::MulticastDelegateProperty) => {
            lemma_multicast_delegate_property_monotone(
                env,
                bytes,
                pos,
                name,
                include_header,
                duplication_index,
            );
        },
        Some(PropertyKind::ViewTargetBlendParamsProperty) => {
            lemma_view_target_blend_params_property_monotone(
                env,
                bytes,
                pos,
                name,
                include_header,
                duplication_index,
            );
        },
        Some(PropertyKind::StrProperty) => {
            lemma_str_property_monotone(env, bytes, pos, name, include_header, duplication_index);
        },
        Some(PropertyKind::NameProperty) => {
            lemma_name_property_monotone(env, bytes, pos, name, include_header, duplication_index);
        },
        Some(PropertyKind::ObjectProperty) => {
            lemma_object_property_monotone(
                env,
                bytes,
                pos,
                name,
                include_header,
                duplication_index,
            );
        },
    }
}

/// The bytes of the value of a property, behind its tag.
#[verifier::opaque]
pub open spec fn ser_payload(env: Env, v: PropertyView, include_header: bool) -> Result<
    Seq<u8>,
    Error,
> {
    match v {
        PropertyView::BoolProperty(x) => Ok(ser_bool_property(env, x, include_header)),
        PropertyView::Int8Property(x) => Ok(ser_int8_property(env, x, include_header)),
        PropertyView::ByteProperty(x) => ser_byte_property(env, x, include_header),
        PropertyView::IntProperty(x) => Ok(ser_int_property(env, x, include_header)),
        PropertyView::Int16Property(x) => Ok(ser_int16_property(env, x, include_header)),
        PropertyView::Int64Property(x) => Ok(ser_int64_property(env, x, include_header)),
        PropertyView::UInt16Property(x) => Ok(ser_uint16_property(env, x, include_header)),
        PropertyView::UInt32Property(x) => Ok(ser_uint32_property(env, x, include_header)),
        PropertyView::UInt64Property(x) => Ok(ser_uint64_property(env, x, include_header)),
        PropertyView::FloatProperty(x) => Ok(ser_float_property(env, x, include_header)),
        PropertyView::DoubleProperty(x) => Ok(ser_double_property(env, x, include_header)),
        PropertyView::MulticastDelegateProperty(x) => ser_multicast_delegate_property(
            env,
            x,
            include_header,
        ),
        PropertyView::ViewTargetBlendParamsProperty(x) => Ok(ser_view_target_blend_params_property(
            env,
            x,
            include_header,
        )),
        PropertyView::StrProperty(x) => Ok(ser_str_property(env, x, include_header)),
        PropertyView::NameProperty(x) => ser_name_property(env, x, include_header),
        PropertyView::ObjectProperty(x) => Ok(ser_object_property(env, x, include_header)),
    }
}

/// The name of the kind of a property, as it stands in the tag.
pub open spec fn kind_fname(kind: PropertyKind) -> FNameView {
    FNameView { content: kind_name(kind), index: 0 }
}

/// The property at `pos` with its tag: the name of the property, where
/// the name `None` ends a list of properties and stands alone; then the
/// name of its kind, the length of its value, its duplication index, and
/// the value.
pub open spec fn parse_property(env: Env, bytes: Seq<u8>, pos: u64, include_header: bool) -> Parsed<
    Option<PropertyView>,
> {
    match parse_fname(env, bytes, pos) {
        Err(e) => Err(e),
        Ok((name, p1)) => if name.is_none() {
            Ok((None, p1))
        } else {
            match parse_fname(env, bytes, p1) {
                Err(e) => Err(e),
                Ok((property_type, p2)) => match parse_i32(bytes, p2) {
                    Err(e) => Err(e),
                    Ok((length, p3)) => match parse_i32(bytes, p3) {
                        Err(e) => Err(e),
                        Ok((duplication_index, p4)) => match parse_property_of(
                            env,
                            bytes,
                            p4,
                            property_type.content,
                            name,
                            include_header,
                            length as i64,
                            0,
                            duplication_index,
                        ) {
                            Err(e) => Err(e),
                            Ok((v, end)) => Ok((Some(v), end)),
                        },
                    },
                },
            }
        },
    }
}

/// The bytes of the tag of a property before the length of its value: the
/// name of the property and the name of its kind.
pub open spec fn ser_tag_names(env: Env, v: PropertyView) -> Result<Seq<u8>, Error> {
    match ser_fname(env, v.name()) {
        Err(e) => Err(e),
        Ok(name) => match ser_fname(env, kind_fname(v.kind())) {
            Err(e) => Err(e),
            Ok(property_type) => Ok(name + property_type),
        },
    }
}

/// The bytes of a property with its tag. The length in the tag is the
/// count that writing the value reports.
pub open spec fn ser_property(env: Env, v: PropertyView, include_header: bool) -> Result<
    Seq<u8>,
    Error,
> {
    match ser_tag_names(env, v) {
        Err(e) => Err(e),
        Ok(names) => match ser_payload(env, v, include_header) {
            Err(e) => Err(e),
            Ok(payload) => Ok(
                names + enc_i32(v.written() as i32) + enc_i32(v.duplication_index()) + payload,
            ),
        },
    }
}

impl Property {
    /// The name of the property.
    pub fn get_name(&self) -> (name: &FName)
        ensures
            name.deep_view() == self.deep_view().name(),
    {
        match self {
            Property::BoolProperty(x) => &x.name,
            Property::Int8Property(x) => &x.name,
            Property::ByteProperty(x) => &x.name,
            Property::IntProperty(x) => &x.name,
            Property::Int16Property(x) => &x.name,
            Property::Int64Property(x) => &x.name,
            Property::UInt16Property(x) => &x.name,
            Property::UInt32Property(x) => &x.name,
            Property::UInt64Property(x) => &x.name,
            Property::FloatProperty(x) => &x.name,
            Property::DoubleProperty(x) => &x.name,
            Property::MulticastDelegateProperty(x) => &x.name,
            Property::ViewTargetBlendParamsProperty(x) => &x.name,
            Property::StrProperty(x) => &x.name,
            Property::NameProperty(x) => &x.name,
            Property::ObjectProperty(x) => &x.name,
        }
    }

    /// The duplication index of the property.
    pub fn get_duplication_index(&self) -> (index: i32)
        ensures
            index == self.deep_view().duplication_index(),
    {
        match self {
            Property::BoolProperty(x) => x.duplication_index,
            Property::Int8Property(x) => x.duplication_index,
            Property::ByteProperty(x) => x.duplication_index,
            Property::IntProperty(x) => x.duplication_index,
            Property::Int16Property(x) => x.duplication_index,
            Property::Int64Property(x) => x.duplication_index,
            Property::UInt16Property(x) => x.duplication_index,
            Property::UInt32Property(x) => x.duplication_index,
            Property::UInt64Property(x) => x.duplication_index,
            Property::FloatProperty(x) => x.duplication_index,
            Property::DoubleProperty(x) => x.duplication_index,
            Property::MulticastDelegateProperty(x) => x.duplication_index,
            Property::ViewTargetBlendParamsProperty(x) => x.duplication_index,
            Property::StrProperty(x) => x.duplication_index,
            Property::NameProperty(x) => x.duplication_index,
            Property::ObjectProperty(x) => x.duplication_index,
        }
    }

    /// The name of the kind of the property, as it stands in the tag.
    pub fn to_fname(&self) -> (name: FName)
        ensures
            name.deep_view() == kind_fname(self.deep_view().kind()),
    {
        match self {
            Property::BoolProperty(_) => FName::from_slice("BoolProperty"),
            Property::Int8Property(_) => FName::from_slice("Int8Property"),
            Property::ByteProperty(_) => FName::from_slice("ByteProperty"),
            Property::IntProperty(_) => FName::from_slice("IntProperty"),
            Property::Int16Property(_) => FName::from_slice("Int16Property"),
            Property::Int64Property(_) => FName::from_slice("Int64Property"),
            Property::UInt16Property(_) => FName::from_slice("UInt16Property"),
            Property::UInt32Property(_) => FName::from_slice("UInt32Property"),
            Property::UInt64Property(_) => FName::from_slice("UInt64Property"),
            Property::FloatProperty(_) => FName::from_slice("FloatProperty"),
            Property::DoubleProperty(_) => FName::from_slice("DoubleProperty"),
            Property::MulticastDelegateProperty(_) => FName::from_slice(
                "MulticastDelegateProperty",
            ),
            Property::ViewTargetBlendParamsProperty(_) => FName::from_slice(
                "ViewTargetBlendParams",
            ),
            Property::StrProperty(_) => FName::from_slice("StrProperty"),
            Property::NameProperty(_) => FName::from_slice("NameProperty"),
            Property::ObjectProperty(_) => FName::from_slice("ObjectProperty"),
        }
    }

    /// Reads the property of the kind that `property_type` names, behind its
    /// tag. A name that names no kind is refused.
    #[verifier::rlimit(40)]
    pub fn from_type<Reader: AssetReader>(
        asset: &mut Reader,
        property_type: &FName,
        name: FName,
        include_header: bool,
        length: i64,
        fallback_length: i64,
        duplication_index: i32,
    ) -> (r: Result<Property, Error>)
        ensures
            final(asset).bytes() == old(asset).bytes(),
            final(asset).env() == old(asset).env(),
            yields_deep(
                r,
                final(asset).pos(),
                parse_property_of(
                    old(asset).env(),
                    old(asset).bytes(),
                    old(asset).pos(),
                    property_type.content@,
                    name.deep_view(),
                    include_header,
                    length,
                    fallback_length,
                    duplication_index,
                ),
            ),
    {
        proof {
            reveal(parse_property_of);
            reveal(kind_of);
        }
        if property_type.content == String::from_str("BoolProperty") {
            match BoolProperty::new(asset, name, include_header, length, duplication_index) {
                Ok(x) => Ok(Property::BoolProperty(x)),
                Err(e) => Err(e),
            }
        } else if property_type.content == String::from_str("Int8Property") {
            match Int8Property::new(asset, name, include_header, length, duplication_index) {
                Ok(x) => Ok(Property::Int8Property(x)),
                Err(e) => Err(e),
            }
        } else if property_type.content == String::from_str("ByteProperty") {
            match ByteProperty::new(
                asset,
                name,
                include_header,
                length,
                fallback_length,
                duplication_index,
            ) {
                Ok(x) => Ok(Property::ByteProperty(x)),
                Err(e) => Err(e),
            }
        } else if property_type.content == String::from_str("IntProperty") {
            match IntProperty::new(asset, name, include_header, length, duplication_index) {
                Ok(x) => Ok(Property::IntProperty(x)),
                Err(e) => Err(e),
            }
        } else if property_type.content == String::from_str("Int16Property") {
            match Int16Property::new(asset, name, include_header, length, duplication_index) {
                Ok(x) => Ok(Property::Int16Property(x)),
                Err(e) => Err(e),
            }
        } else if property_type.content == String::from_str("Int64Property") {
            match Int64Property::new(asset, name, include_header, length, duplication_index) {
                Ok(x) => Ok(Property::Int64Property(x)),
                Err(e) => Err(e),
            }
        } else if property_type.content == String::from_str("UInt16Property") {
            match UInt16Property::new(asset, name, include_header, length, duplication_index) {
                Ok(x) => Ok(Property::UInt16Property(x)),
                Err(e) => Err(e),
            }
        } else if property_type.content == String::from_str("UInt32Property") {
            match UInt32Property::new(asset, name, include_header, length, duplication_index) {
                Ok(x) => Ok(Property::UInt32Property(x)),
                Err(e) => Err(e),
            }
        } else if property_type.content == String::from_str("UInt64Property") {
            match UInt64Property::new(asset, name, include_header, length, duplication_index) {
                Ok(x) => Ok(Property::UInt64Property(x)),
                Err(e) => Err(e),
            }
        } else if property_type.content == String::from_str("FloatProperty") {
            match FloatProperty::new(asset, name, include_header, length, duplication_index) {
                Ok(x) => Ok(Property::FloatProperty(x)),
                Err(e) => Err(e),
            }
        } else if property_type.content == String::from_str("DoubleProperty") {
            match DoubleProperty::new(asset, name, include_header, length, duplication_index) {
                Ok(x) => Ok(Property::DoubleProperty(x)),
                Err(e) => Err(e),
            }
        } else if property_type.content == String::from_str("MulticastDelegateProperty") {
            match MulticastDelegateProperty::new(
                asset,
                name,
                include_header,
                length,
                duplication_index,
            ) {
                Ok(x) => Ok(Property::MulticastDelegateProperty(x)),
                Err(e) => Err(e),
            }
        } else if property_type.content == String::from_str("ViewTargetBlendParams") {
            match ViewTargetBlendParamsProperty::new(
                asset,
                name,
                include_header,
                length,
                duplication_index,
            ) {
                Ok(x) => Ok(Property::ViewTargetBlendParamsProperty(x)),
                Err(e) => Err(e),
            }
        } else if property_type.content == String::from_str("StrProperty") {
            match StrProperty::new(asset, name, include_header, length, duplication_index) {
                Ok(x) => Ok(Property::StrProperty(x)),
                Err(e) => Err(e),
            }
        } else if property_type.content == String::from_str("NameProperty") {
            match NameProperty::new(asset, name, include_header, length, duplication_index) {
                Ok(x) => Ok(Property::NameProperty(x)),
                Err(e) => Err(e),
            }
        } else if property_type.content == String::from_str("ObjectProperty") {
            match ObjectProperty::new(asset, name, include_header, length, duplication_index) {
                Ok(x) => Ok(Property::ObjectProperty(x)),
                Err(e) => Err(e),
            }
        } else {
            Err(Error::Property(PropertyError::UnknownType))
        }
    }

    /// Reads a property with its tag; nothing where the name `None` stands.
    pub fn new<Reader: AssetReader>(asset: &mut Reader, include_header: bool) -> (r: Result<
        Option<Property>,
        Error,
    >)
        ensures
            final(asset).bytes() == old(asset).bytes(),
            final(asset).env() == old(asset).env(),
            yields_deep(
                r,
                final(asset).pos(),
                parse_property(
                    old(asset).env(),
                    old(asset).bytes(),
                    old(asset).pos(),
                    include_header,
                ),
            ),
    {
        let name = match asset.read_fname() {
            Ok(name) => name,
            Err(e) => return Err(e),
        };
        if name.is_none() {
            return Ok(None);
        }
        let property_type = match asset.read_fname() {
            Ok(name) => name,
            Err(e) => return Err(e),
        };
        let length = match asset.read_i32() {
            Ok(v) => v,
            Err(e) => return Err(e),
        };
        let duplication_index = match asset.read_i32() {
            Ok(v) => v,
            Err(e) => return Err(e),
        };
        match Property::from_type(
            asset,
            &property_type,
            name,
            include_header,
            length as i64,
            0,
            duplication_index,
        ) {
            Ok(property) => Ok(Some(property)),
            Err(e) => Err(e),
        }
    }

    /// Writes the value of the property, without its tag, and reports its
    /// count.
    pub fn write_payload<Writer: AssetWriter>(
        &self,
        asset: &mut Writer,
        include_header: bool,
    ) -> (r: Result<usize, Error>)
        ensures
            final(asset).env() == old(asset).env(),
            emitted_checked(
                r,
                self.deep_view().written(),
                old(asset).bytes(),
                old(asset).pos(),
                final(asset).bytes(),
                final(asset).pos(),
                ser_payload(old(asset).env(), self.deep_view(), include_header),
            ),
    {
        proof {
            reveal(ser_payload);
        }
        match self {
            Property::BoolProperty(x) => x.write(asset, include_header),
            Property::Int8Property(x) => x.write(asset, include_header),
            Property::ByteProperty(x) => x.write(asset, include_header),
            Property::IntProperty(x) => x.write(asset, include_header),
            Property::Int16Property(x) => x.write(asset, include_header),
            Property::Int64Property(x) => x.write(asset, include_header),
            Property::UInt16Property(x) => x.write(asset, include_header),
            Property::UInt32Property(x) => x.write(asset, include_header),
            Property::UInt64Property(x) => x.write(asset, include_header),
            Property::FloatProperty(x) => x.write(asset, include_header),
            Property::DoubleProperty(x) => x.write(asset, include_header),
            Property::MulticastDelegateProperty(x) => x.write(asset, include_header),
            Property::ViewTargetBlendParamsProperty(x) => x.write(asset, include_header),
            Property::StrProperty(x) => x.write(asset, include_header),
            Property::NameProperty(x) => x.write(asset, include_header),
            Property::ObjectProperty(x) => x.write(asset, include_header),
        }
    }

    /// Writes a property with its tag: the two names, a slot for the
    /// length, the duplication index and the value; then the count that
    /// writing the value reported is put into the slot. Reports the
    /// position of the slot.
    #[verifier::rlimit(40)]
    pub fn write<Writer: AssetWriter>(
        property: &Property,
        asset: &mut Writer,
        include_header: bool,
    ) -> (r: Result<usize, Error>)
        ensures
            final(asset).env() == old(asset).env(),
            match ser_property(old(asset).env(), property.deep_view(), include_header) {
                Ok(chunk) => emitted(
                    r,
                    (old(asset).pos() + ser_tag_names(
                        old(asset).env(),
                        property.deep_view(),
                    )->Ok_0.len()) as usize,
                    old(asset).bytes(),
                    old(asset).pos(),
                    final(asset).bytes(),
                    final(asset).pos(),
                    chunk,
                ),
                Err(e) => r == Err::<usize, Error>(e) || r == Err::<usize, Error>(
                    Error::invalid_input(),
                ),
            },
    {
        let ghost env = asset.env();
        let ghost origin = asset.bytes();
        let ghost start = asset.pos();
        let ghost none = Seq::<u8>::empty();
        let ghost v = property.deep_view();
        proof {
            lemma_enc_dec();
        }
        let r1 = asset.write_fname(property.get_name());
        let ghost n1 = ser_fname(env, v.name());
        proof {
            if n1 is Ok {
                lemma_emit(
                    r1,
                    origin,
                    start,
                    none,
                    n1->Ok_0,
                    origin,
                    start,
                    asset.bytes(),
                    asset.pos(),
                );
                assert(none + n1->Ok_0 =~= n1->Ok_0);
            }
        }
        if let Err(e) = r1 {
            return Err(e);
        }
        let ghost c1 = n1->Ok_0;
        let ghost b = asset.bytes();
        let ghost p = asset.pos();
        let property_type = property.to_fname();
        let r2 = asset.write_fname(&property_type);
        let ghost n2 = ser_fname(env, kind_fname(v.kind()));
        proof {
            if n2 is Ok {
                lemma_emit(r2, origin, start, c1, n2->Ok_0, b, p, asset.bytes(), asset.pos());
            }
        }
        if let Err(e) = r2 {
            return Err(e);
        }
        let ghost names = c1 + n2->Ok_0;
        let begin = asset.position();
        let ghost b = asset.bytes();
        let r3 = asset.write_i32(0);
        proof {
            lemma_emit(r3, origin, start, names, enc_i32(0), b, begin, asset.bytes(), asset.pos());
        }
        if let Err(e) = r3 {
            return Err(e);
        }
        let ghost slot = names + enc_i32(0);
        let ghost b = asset.bytes();
        let ghost p = asset.pos();
        let index = property.get_duplication_index();
        let r4 = asset.write_i32(index);
        proof {
            lemma_emit(r4, origin, start, slot, enc_i32(index), b, p, asset.bytes(), asset.pos());
        }
        if let Err(e) = r4 {
            return Err(e);
        }
        let ghost tag = slot + enc_i32(index);
        let ghost b = asset.bytes();
        let ghost p = asset.pos();
        let r5 = property.write_payload(asset, include_header);
        let ghost body = ser_payload(env, v, include_header);
        proof {
            if body is Ok {
                crate::stream::lemma_write_at_concat(origin, start as int, tag, body->Ok_0);
            }
        }
        let len = match r5 {
            Ok(len) => len,
            Err(e) => return Err(e),
        };
        let ghost payload = body->Ok_0;
        let end = asset.position();
        let ghost written = asset.bytes();
        let _ = asset.seek(SeekFrom::Start(begin));
        let r6 = asset.write_i32(#[verifier::truncate] (len as i32));
        let ghost patch = enc_i32(len as i32);
        proof {
            assert(tag + payload =~= names + enc_i32(0) + (enc_i32(index) + payload));
            lemma_write_at_patch_mid(
                origin,
                start as int,
                names,
                enc_i32(0),
                enc_i32(index) + payload,
                patch,
            );
            assert(names + patch + (enc_i32(index) + payload) =~= names + patch + enc_i32(index)
                + payload);
        }
        if let Err(e) = r6 {
            return Err(e);
        }
        let _ = asset.seek(SeekFrom::Start(end));
        Ok(begin as usize)
    }
}

} // verus!
