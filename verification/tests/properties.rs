use std::collections::HashMap;
use unreal_asset::cursor::Cursor;
use unreal_asset::error::{Error, InvalidFileError, IoError, NoDataError, PropertyError};
use unreal_asset::properties::delegate_property::{MulticastDelegate, MulticastDelegateProperty};
use unreal_asset::properties::int_property::{
    BoolProperty, ByteProperty, ByteType, DoubleProperty, FloatProperty, Int16Property,
    Int64Property, Int8Property, IntProperty, UInt16Property, UInt32Property, UInt64Property,
};
use unreal_asset::properties::object_property::ObjectProperty;
use unreal_asset::properties::str_property::{NameProperty, StrProperty};
use unreal_asset::properties::view_target_blend_property::{
    ViewTargetBlendFunction, ViewTargetBlendParamsProperty,
};
use unreal_asset::properties::Property;
use unreal_asset::reader::asset_trait::{hash_name, AssetTrait};
use unreal_asset::reader::raw_reader::RawReader;
use unreal_asset::reader::raw_writer::RawWriter;
use unreal_asset::registry::name_table_writer::NameTableWriter;
use unreal_asset::unreal_types::{FName, PackageIndex};

fn reader(bytes: Vec<u8>) -> RawReader {
    RawReader::new(Cursor::new(bytes), 513)
}

fn writer() -> RawWriter {
    RawWriter::new(Cursor::new(Vec::new()), 513)
}

fn name(text: &str) -> FName {
    FName::from_slice(text)
}

#[test]
fn byte_property_of_length_one_reads_one_byte() {
    let mut asset = reader(vec![0xFE, 1, 2, 3, 4, 5, 6, 7, 8]);
    let property = ByteProperty::new(&mut asset, name("B"), false, 1, 0, 0).unwrap();
    assert_eq!(property.byte_type, ByteType::Byte);
    assert_eq!(property.value, -2);
    assert_eq!(property.enum_type, None);
    assert_eq!(asset.position(), 1);
}

#[test]
fn byte_property_of_length_zero_or_eight_reads_eight_bytes() {
    for length in [0i64, 8] {
        let mut asset = reader(vec![1, 0, 0, 0, 0, 0, 0, 0, 9]);
        let property = ByteProperty::new(&mut asset, name("B"), false, length, 1, 0).unwrap();
        assert_eq!(property.byte_type, ByteType::Long);
        assert_eq!(property.value, 1);
        assert_eq!(asset.position(), 8);
    }
}

#[test]
fn byte_property_of_length_two_falls_back() {
    let mut asset = reader(vec![7, 0, 0, 0, 0, 0, 0, 0, 9]);
    let property = ByteProperty::new(&mut asset, name("B"), false, 2, 1, 0).unwrap();
    assert_eq!(property.byte_type, ByteType::Byte);
    assert_eq!(property.value, 7);
    assert_eq!(asset.position(), 1);

    let mut asset = reader(vec![7, 0, 0, 0, 0, 0, 0, 0, 9]);
    let property = ByteProperty::new(&mut asset, name("B"), false, 2, 0, 0).unwrap();
    assert_eq!(property.byte_type, ByteType::Long);
    assert_eq!(property.value, 7);
    assert_eq!(asset.position(), 8);

    let mut asset = reader(vec![7, 0, 0, 0, 0, 0, 0, 0, 9]);
    let failed = ByteProperty::new(&mut asset, name("B"), false, 2, 3, 0);
    assert_eq!(failed, Err(Error::InvalidFile(InvalidFileError::ByteLength(3))));
}

#[test]
fn byte_property_falls_back_when_the_stream_is_short() {
    // eight bytes are asked for and three are there: the fallback reads one
    let mut asset = reader(vec![5, 6, 7]);
    let property = ByteProperty::new(&mut asset, name("B"), false, 8, 1, 0).unwrap();
    assert_eq!(property.byte_type, ByteType::Byte);
    assert_eq!(property.value, 5);
    assert_eq!(asset.position(), 1);
}

#[test]
fn byte_property_with_header_names_its_enumeration() {
    let mut bytes = 77i64.to_le_bytes().to_vec();
    bytes.push(0x80);
    let mut asset = reader(bytes.clone());
    let property = ByteProperty::new(&mut asset, name("B"), true, 1, 0, 4).unwrap();
    assert_eq!(property.enum_type, Some(77));
    assert_eq!(property.property_guid, None);
    assert_eq!(property.value, -128);
    assert_eq!(property.duplication_index, 4);

    let mut out = writer();
    assert_eq!(property.write(&mut out, true), Ok(1));
    assert_eq!(out.into_cursor().into_inner(), bytes);
    let mut out = writer();
    assert_eq!(property.write(&mut out, false), Ok(1));
    assert_eq!(out.into_cursor().into_inner(), vec![0x80]);
}

#[test]
fn byte_property_without_enumeration_has_no_header() {
    let property = ByteProperty {
        name: name("B"),
        property_guid: None,
        duplication_index: 0,
        enum_type: None,
        byte_type: ByteType::Long,
        value: 3,
    };
    let mut out = writer();
    assert_eq!(property.write(&mut out, true), Err(Error::Property(PropertyError::Headerless)));
    assert_eq!(out.into_cursor().into_inner(), Vec::<u8>::new());
    let mut out = writer();
    assert_eq!(property.write(&mut out, false), Ok(8));
    assert_eq!(out.into_cursor().into_inner(), vec![3, 0, 0, 0, 0, 0, 0, 0]);
}

#[test]
fn integer_properties_read_and_write_their_width() {
    let mut asset = reader(vec![0xFF; 64]);
    let a = Int8Property::new(&mut asset, name("a"), true, 0, 1).unwrap();
    let b = Int16Property::new(&mut asset, name("b"), true, 0, 2).unwrap();
    let c = IntProperty::new(&mut asset, name("c"), false, 0, 3).unwrap();
    let d = Int64Property::new(&mut asset, name("d"), false, 0, 4).unwrap();
    let e = UInt16Property::new(&mut asset, name("e"), false, 0, 5).unwrap();
    let f = UInt32Property::new(&mut asset, name("f"), false, 0, 6).unwrap();
    let g = UInt64Property::new(&mut asset, name("g"), false, 0, 7).unwrap();
    assert_eq!(asset.position(), 1 + 2 + 4 + 8 + 2 + 4 + 8);
    assert_eq!((a.value, b.value, c.value, d.value), (-1, -1, -1, -1));
    assert_eq!((e.value, f.value, g.value), (u16::MAX, u32::MAX, u64::MAX));
    assert_eq!((a.duplication_index, g.duplication_index), (1, 7));
    assert_eq!(a.property_guid, None);
    assert_eq!(c.name, name("c"));

    let mut out = writer();
    assert_eq!(a.write(&mut out, true), Ok(1));
    assert_eq!(b.write(&mut out, true), Ok(2));
    assert_eq!(c.write(&mut out, false), Ok(4));
    assert_eq!(d.write(&mut out, false), Ok(8));
    assert_eq!(e.write(&mut out, false), Ok(2));
    assert_eq!(f.write(&mut out, false), Ok(4));
    assert_eq!(g.write(&mut out, false), Ok(8));
    assert_eq!(out.into_cursor().into_inner(), vec![0xFF; 29]);
}

#[test]
fn integer_property_keeps_its_value() {
    let mut asset = reader(vec![0x78, 0x56, 0x34, 0x12]);
    let property = IntProperty::new(&mut asset, name("Count"), false, 4, 0).unwrap();
    assert_eq!(property.value, 0x1234_5678);
    let mut asset = reader(vec![0x78, 0x56]);
    assert_eq!(
        IntProperty::new(&mut asset, name("Count"), false, 4, 0),
        Err(Error::Io(IoError::UnexpectedEof))
    );
}

#[test]
fn numbers_with_fraction_are_kept_as_bits() {
    let one = 1.0f32.to_bits();
    let half = 0.5f64.to_bits();
    let mut bytes = one.to_le_bytes().to_vec();
    bytes.extend_from_slice(&half.to_le_bytes());
    let mut asset = reader(bytes.clone());
    let a = FloatProperty::new(&mut asset, name("a"), false, 0, 0).unwrap();
    let b = DoubleProperty::new(&mut asset, name("b"), false, 0, 0).unwrap();
    assert_eq!(f32::from_bits(a.value), 1.0);
    assert_eq!(f64::from_bits(b.value), 0.5);
    let mut out = writer();
    assert_eq!(a.write(&mut out, false), Ok(4));
    assert_eq!(b.write(&mut out, false), Ok(8));
    assert_eq!(out.into_cursor().into_inner(), bytes);
}

#[test]
fn bool_property_has_no_width() {
    let mut asset = reader(vec![2, 0]);
    let yes = BoolProperty::new(&mut asset, name("yes"), true, 0, 0).unwrap();
    let no = BoolProperty::new(&mut asset, name("no"), false, 0, 0).unwrap();
    assert!(yes.value);
    assert!(!no.value);
    let mut out = writer();
    assert_eq!(yes.write(&mut out, true), Ok(0));
    assert_eq!(no.write(&mut out, false), Ok(0));
    assert_eq!(out.into_cursor().into_inner(), vec![1, 0]);
}

#[test]
fn multicast_delegate_with_two_entries_through_a_name_table() {
    let mut lookup = HashMap::new();
    lookup.insert(hash_name("OnHit"), 5);
    lookup.insert(hash_name("OnDie"), 9);
    let property = MulticastDelegateProperty {
        name: name("Events"),
        property_guid: None,
        duplication_index: 0,
        value: vec![
            MulticastDelegate::new(PackageIndex::new(3), FName::new("OnHit".to_string(), 0)),
            MulticastDelegate::new(PackageIndex::new(-1), FName::new("OnDie".to_string(), 2)),
        ],
    };
    let mut out = NameTableWriter::new(writer(), &lookup);
    assert_eq!(property.write(&mut out, false), Ok(4 + 12 * 2));
    let bytes = out.into_inner().into_cursor().into_inner();
    assert_eq!(
        bytes,
        vec![
            0x02, 0, 0, 0, 0x03, 0, 0, 0, 5, 0, 0, 0, 0, 0, 0, 0, 0xFF, 0xFF, 0xFF, 0xFF, 9, 0,
            0, 0, 0x02, 0, 0, 0
        ]
    );
}

#[test]
fn multicast_delegate_round_trips_with_names_in_place() {
    let property = MulticastDelegateProperty {
        name: name("Events"),
        property_guid: None,
        duplication_index: 1,
        value: vec![
            MulticastDelegate::new(PackageIndex::new(3), name("OnHit")),
            MulticastDelegate::new(PackageIndex::new(0), name("Größe")),
        ],
    };
    let mut out = writer();
    property.write(&mut out, true).unwrap();
    let bytes = out.into_cursor().into_inner();
    let len = bytes.len() as u64;
    let mut asset = reader(bytes);
    let back = MulticastDelegateProperty::new(&mut asset, name("Events"), true, 0, 1).unwrap();
    assert_eq!(back, property);
    assert_eq!(asset.position(), len);
}

#[test]
fn multicast_delegate_without_name_in_the_table_is_refused() {
    let lookup = HashMap::new();
    let property = MulticastDelegateProperty {
        name: name("Events"),
        property_guid: None,
        duplication_index: 0,
        value: vec![MulticastDelegate::new(PackageIndex::new(3), name("OnHit"))],
    };
    let mut out = NameTableWriter::new(writer(), &lookup);
    assert_eq!(property.write(&mut out, false), Err(Error::NoData(NoDataError::NameReference)));
}

#[test]
fn multicast_delegate_with_negative_count_runs_into_the_end() {
    let mut asset = reader(vec![0xFF, 0xFF, 0xFF, 0xFF, 1, 0, 0, 0]);
    let failed = MulticastDelegateProperty::new(&mut asset, name("Events"), false, 0, 0);
    assert_eq!(failed, Err(Error::Io(IoError::UnexpectedEof)));
}

#[test]
fn view_target_blend_is_thirteen_bytes() {
    let mut bytes = 2.0f32.to_bits().to_le_bytes().to_vec();
    bytes.push(3);
    bytes.extend_from_slice(&1.5f32.to_bits().to_le_bytes());
    bytes.extend_from_slice(&7i32.to_le_bytes());
    let mut asset = reader(bytes);
    let property =
        ViewTargetBlendParamsProperty::new(&mut asset, name("Blend"), false, 0, 0).unwrap();
    assert_eq!(f32::from_bits(property.blend_time), 2.0);
    assert_eq!(property.blend_function, ViewTargetBlendFunction::VtBlendEaseOut);
    assert_eq!(f32::from_bits(property.blend_exp), 1.5);
    assert!(property.lock_outgoing);
    let mut out = writer();
    assert_eq!(property.write(&mut out, false), Ok(13));
    let mut expected = 2.0f32.to_bits().to_le_bytes().to_vec();
    expected.push(3);
    expected.extend_from_slice(&1.5f32.to_bits().to_le_bytes());
    expected.extend_from_slice(&1i32.to_le_bytes());
    assert_eq!(out.into_cursor().into_inner(), expected);
}

#[test]
fn view_target_blend_function_above_five_is_refused() {
    let mut bytes = vec![0, 0, 0, 0, 6];
    bytes.extend_from_slice(&[0; 8]);
    let mut asset = reader(bytes);
    assert_eq!(
        ViewTargetBlendParamsProperty::new(&mut asset, name("Blend"), false, 0, 0),
        Err(Error::InvalidFile(InvalidFileError::UnknownBlendFunction(6)))
    );
    assert_eq!(ViewTargetBlendFunction::try_from_u8(5), Ok(ViewTargetBlendFunction::VtBlendMax));
    assert_eq!(ViewTargetBlendFunction::VtBlendCubic.into_u8(), 1);
}

fn tagged(property: &Property) -> Vec<u8> {
    let mut out = writer();
    Property::write(property, &mut out, true).unwrap();
    out.into_cursor().into_inner()
}

#[test]
fn property_tag_carries_names_length_and_index() {
    let property = Property::IntProperty(IntProperty {
        name: name("Count"),
        property_guid: None,
        duplication_index: 2,
        value: 7,
    });
    let bytes = tagged(&property);
    let mut expected = vec![6, 0, 0, 0];
    expected.extend_from_slice(b"Count\0");
    expected.extend_from_slice(&[12, 0, 0, 0]);
    expected.extend_from_slice(b"IntProperty\0");
    expected.extend_from_slice(&[4, 0, 0, 0, 2, 0, 0, 0, 7, 0, 0, 0]);
    assert_eq!(bytes, expected);
    let mut asset = reader(bytes);
    assert_eq!(Property::new(&mut asset, true), Ok(Some(property)));
    assert_eq!(asset.position(), expected.len() as u64);
}

#[test]
fn property_write_reports_the_place_of_the_length() {
    let property = Property::BoolProperty(BoolProperty {
        name: name("On"),
        property_guid: None,
        duplication_index: 0,
        value: true,
    });
    let mut out = writer();
    out.set_position(3);
    let slot = Property::write(&property, &mut out, true).unwrap();
    let bytes = out.into_cursor().into_inner();
    // three bytes of padding, "On" in seven bytes, "BoolProperty" in seventeen
    assert_eq!(slot, 3 + 7 + 17);
    assert_eq!(&bytes[slot..slot + 4], &[0, 0, 0, 0]);
    assert_eq!(bytes[slot + 8], 1);
}

#[test]
fn every_kind_of_property_round_trips_with_its_tag() {
    let all = vec![
        Property::BoolProperty(BoolProperty {
            name: name("a"),
            property_guid: None,
            duplication_index: 0,
            value: false,
        }),
        Property::Int8Property(Int8Property {
            name: name("b"),
            property_guid: None,
            duplication_index: 1,
            value: -5,
        }),
        Property::ByteProperty(ByteProperty {
            name: name("c"),
            property_guid: None,
            duplication_index: 0,
            enum_type: Some(9),
            byte_type: ByteType::Byte,
            value: -1,
        }),
        Property::ByteProperty(ByteProperty {
            name: name("c"),
            property_guid: None,
            duplication_index: 0,
            enum_type: Some(9),
            byte_type: ByteType::Long,
            value: 1 << 40,
        }),
        Property::IntProperty(IntProperty {
            name: name("d"),
            property_guid: None,
            duplication_index: 0,
            value: i32::MIN,
        }),
        Property::Int16Property(Int16Property {
            name: name("e"),
            property_guid: None,
            duplication_index: 0,
            value: -300,
        }),
        Property::Int64Property(Int64Property {
            name: name("f"),
            property_guid: None,
            duplication_index: 0,
            value: i64::MAX,
        }),
        Property::UInt16Property(UInt16Property {
            name: name("g"),
            property_guid: None,
            duplication_index: 0,
            value: 65535,
        }),
        Property::UInt32Property(UInt32Property {
            name: name("h"),
            property_guid: None,
            duplication_index: 0,
            value: 1,
        }),
        Property::UInt64Property(UInt64Property {
            name: name("i"),
            property_guid: None,
            duplication_index: 0,
            value: u64::MAX,
        }),
        Property::FloatProperty(FloatProperty {
            name: name("j"),
            property_guid: None,
            duplication_index: 0,
            value: 1.25f32.to_bits(),
        }),
        Property::DoubleProperty(DoubleProperty {
            name: name("k"),
            property_guid: None,
            duplication_index: 0,
            value: (-2.5f64).to_bits(),
        }),
        Property::MulticastDelegateProperty(MulticastDelegateProperty {
            name: name("l"),
            property_guid: None,
            duplication_index: 0,
            value: vec![MulticastDelegate::new(PackageIndex::new(1), name("Go"))],
        }),
        Property::ViewTargetBlendParamsProperty(ViewTargetBlendParamsProperty {
            name: name("m"),
            property_guid: None,
            duplication_index: 0,
            blend_time: 1,
            blend_function: ViewTargetBlendFunction::VtBlendLinear,
            blend_exp: 2,
            lock_outgoing: false,
        }),
        Property::StrProperty(StrProperty {
            name: name("n"),
            property_guid: None,
            duplication_index: 0,
            value: Some("Hello".to_string()),
        }),
        Property::StrProperty(StrProperty {
            name: name("n"),
            property_guid: None,
            duplication_index: 3,
            value: Some("héllo".to_string()),
        }),
        Property::StrProperty(StrProperty {
            name: name("n"),
            property_guid: None,
            duplication_index: 0,
            value: None,
        }),
        Property::NameProperty(NameProperty {
            name: name("o"),
            property_guid: None,
            duplication_index: 0,
            value: name("Tag"),
        }),
        Property::ObjectProperty(ObjectProperty {
            name: name("p"),
            property_guid: None,
            duplication_index: 0,
            value: PackageIndex::new(-4),
        }),
    ];
    for property in all {
        let bytes = tagged(&property);
        let len = bytes.len() as u64;
        let mut asset = reader(bytes);
        assert_eq!(Property::new(&mut asset, true), Ok(Some(property)));
        assert_eq!(asset.position(), len);
    }
}

#[test]
fn the_name_none_ends_a_list() {
    let mut bytes = vec![5, 0, 0, 0];
    bytes.extend_from_slice(b"None\0");
    bytes.push(0xAA);
    let mut asset = reader(bytes);
    assert_eq!(Property::new(&mut asset, true), Ok(None));
    assert_eq!(asset.position(), 9);
    // a null string stands for the name None as well
    let mut asset = reader(vec![0, 0, 0, 0]);
    assert_eq!(Property::new(&mut asset, true), Ok(None));
}

#[test]
fn unknown_kind_of_property_is_refused() {
    let mut bytes = vec![2, 0, 0, 0, b'x', 0];
    bytes.extend_from_slice(&[12, 0, 0, 0]);
    bytes.extend_from_slice(b"MapProperty\0");
    bytes.extend_from_slice(&[0; 16]);
    let mut asset = reader(bytes);
    assert_eq!(Property::new(&mut asset, true), Err(Error::Property(PropertyError::UnknownType)));
}

#[test]
fn str_property_is_one_string() {
    let property = StrProperty {
        name: name("Title"),
        property_guid: None,
        duplication_index: 0,
        value: Some("Hi".to_string()),
    };
    let mut out = writer();
    assert_eq!(property.write(&mut out, false), Ok(3));
    let bytes = out.into_cursor().into_inner();
    assert_eq!(bytes, vec![3, 0, 0, 0, b'H', b'i', 0]);
    let mut asset = reader(bytes);
    assert_eq!(StrProperty::new(&mut asset, name("Title"), false, 0, 0), Ok(property));
    assert_eq!(asset.position(), 7);
}

#[test]
fn str_property_without_text_is_four_bytes() {
    let property =
        StrProperty { name: name("Title"), property_guid: None, duplication_index: 0, value: None };
    let mut out = writer();
    assert_eq!(property.write(&mut out, false), Ok(4));
    let bytes = out.into_cursor().into_inner();
    assert_eq!(bytes, vec![0, 0, 0, 0]);
    let mut asset = reader(bytes);
    assert_eq!(StrProperty::new(&mut asset, name("Title"), false, 0, 0), Ok(property));
}

#[test]
fn str_property_with_wide_text_counts_twice_its_bytes() {
    let property = StrProperty {
        name: name("Title"),
        property_guid: None,
        duplication_index: 0,
        value: Some("é".to_string()),
    };
    let mut out = writer();
    // two bytes of UTF-8, doubled, and two for the end
    assert_eq!(property.write(&mut out, false), Ok(6));
    let bytes = out.into_cursor().into_inner();
    assert_eq!(bytes, vec![0xFE, 0xFF, 0xFF, 0xFF, 0xE9, 0, 0, 0]);
    let mut asset = reader(bytes);
    assert_eq!(StrProperty::new(&mut asset, name("Title"), false, 0, 0), Ok(property));
}

#[test]
fn str_property_with_a_length_out_of_range_is_refused() {
    let mut asset = reader(vec![0x01, 0x00, 0x02, 0x00, b'a']);
    assert_eq!(
        StrProperty::new(&mut asset, name("Title"), false, 0, 0),
        Err(Error::InvalidFile(InvalidFileError::StringLength(131073)))
    );
}

#[test]
fn name_property_through_a_name_table_is_eight_bytes() {
    let mut lookup = HashMap::new();
    lookup.insert(hash_name("Tag"), 7);
    let property = NameProperty {
        name: name("Kind"),
        property_guid: None,
        duplication_index: 0,
        value: FName::new("Tag".to_string(), 2),
    };
    let mut out = NameTableWriter::new(writer(), &lookup);
    assert_eq!(property.write(&mut out, false), Ok(8));
    let bytes = out.into_inner().into_cursor().into_inner();
    assert_eq!(bytes, vec![7, 0, 0, 0, 2, 0, 0, 0]);
}

#[test]
fn name_property_without_name_in_the_table_is_refused() {
    let lookup = HashMap::new();
    let property = NameProperty {
        name: name("Kind"),
        property_guid: None,
        duplication_index: 0,
        value: name("Tag"),
    };
    let mut out = NameTableWriter::new(writer(), &lookup);
    assert_eq!(property.write(&mut out, false), Err(Error::NoData(NoDataError::NameReference)));
}

#[test]
fn name_property_round_trips_with_names_in_place() {
    let property = NameProperty {
        name: name("Kind"),
        property_guid: None,
        duplication_index: 4,
        value: name("Tag"),
    };
    let mut out = writer();
    assert_eq!(property.write(&mut out, true), Ok(8));
    let bytes = out.into_cursor().into_inner();
    let len = bytes.len() as u64;
    let mut asset = reader(bytes);
    assert_eq!(NameProperty::new(&mut asset, name("Kind"), true, 0, 4), Ok(property));
    assert_eq!(asset.position(), len);
}

#[test]
fn object_property_is_one_link() {
    let property = ObjectProperty {
        name: name("Owner"),
        property_guid: None,
        duplication_index: 0,
        value: PackageIndex::new(-2),
    };
    let mut out = writer();
    assert_eq!(property.write(&mut out, false), Ok(4));
    let bytes = out.into_cursor().into_inner();
    assert_eq!(bytes, vec![0xFE, 0xFF, 0xFF, 0xFF]);
    let mut asset = reader(bytes);
    let back = ObjectProperty::new(&mut asset, name("Owner"), false, 0, 0).unwrap();
    assert!(back.value.is_import());
    assert_eq!(back, property);
    assert_eq!(asset.position(), 4);
}

#[test]
fn object_property_at_the_end_of_the_stream_is_refused() {
    let mut asset = reader(vec![1, 0, 0]);
    assert_eq!(
        ObjectProperty::new(&mut asset, name("Owner"), false, 0, 0),
        Err(Error::Io(IoError::UnexpectedEof))
    );
}

#[test]
fn str_property_tag_carries_the_count_of_its_text() {
    let property = Property::StrProperty(StrProperty {
        name: name("T"),
        property_guid: None,
        duplication_index: 0,
        value: Some("Hello".to_string()),
    });
    let bytes = tagged(&property);
    let mut expected = vec![2, 0, 0, 0];
    expected.extend_from_slice(b"T\0");
    expected.extend_from_slice(&[12, 0, 0, 0]);
    expected.extend_from_slice(b"StrProperty\0");
    expected.extend_from_slice(&[6, 0, 0, 0, 0, 0, 0, 0]);
    expected.extend_from_slice(&[6, 0, 0, 0]);
    expected.extend_from_slice(b"Hello\0");
    assert_eq!(bytes, expected);
}

#[test]
fn what_was_read_is_read_again_after_writing() {
    // the name in its wide form and a declared length that nothing stores
    let mut bytes = vec![0xFD, 0xFF, 0xFF, 0xFF, b'A', 0, b'b', 0, 0, 0];
    bytes.extend_from_slice(&[12, 0, 0, 0]);
    bytes.extend_from_slice(b"IntProperty\0");
    bytes.extend_from_slice(&[99, 0, 0, 0, 1, 0, 0, 0, 7, 0, 0, 0]);
    let mut asset = reader(bytes.clone());
    let first = Property::new(&mut asset, true).unwrap().unwrap();
    assert_eq!(
        first,
        Property::IntProperty(IntProperty {
            name: name("Ab"),
            property_guid: None,
            duplication_index: 1,
            value: 7,
        })
    );
    let written = tagged(&first);
    assert_ne!(written, bytes);
    let mut asset = reader(written.clone());
    assert_eq!(Property::new(&mut asset, true), Ok(Some(first.clone())));
    assert_eq!(asset.position(), written.len() as u64);
    // what was written is written again as the same bytes
    assert_eq!(tagged(&first), written);
}
