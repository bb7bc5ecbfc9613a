use std::collections::hash_map::DefaultHasher;
use std::collections::HashMap;
use std::hash::{Hash, Hasher};

use unreal_asset::cursor::{Cursor, SeekFrom};
use unreal_asset::custom_version::{FAssetRegistryVersionType, FCoreObjectVersion};
use unreal_asset::error::{Error, InvalidFileError, IoError, NoDataError};
use unreal_asset::exports::base_export::BaseExport;
use unreal_asset::exports::normal_export::NormalExport;
use unreal_asset::exports::raw_export::RawExport;
use unreal_asset::exports::{ExportBaseTrait, ExportNormalTrait, ExportTrait};
use unreal_asset::fproperty::FProperty;
use unreal_asset::properties::int_property::IntProperty;
use unreal_asset::properties::Property;
use unreal_asset::reader::asset_reader::AssetReader;
use unreal_asset::reader::asset_trait::{hash_name, AssetTrait, CustomVersion};
use unreal_asset::reader::asset_writer::AssetWriter;
use unreal_asset::reader::raw_reader::RawReader;
use unreal_asset::reader::raw_writer::RawWriter;
use unreal_asset::registry::name_table_reader::NameTableReader;
use unreal_asset::registry::name_table_writer::NameTableWriter;
use unreal_asset::registry::objects::md5_hash::FMD5Hash;
use unreal_asset::unreal_types::{guid_from_bytes, FName, Import, PackageIndex};
use unreal_asset::uproperty::UField;

fn reader(bytes: Vec<u8>) -> RawReader {
    RawReader::new(Cursor::new(bytes), 500)
}

fn writer() -> RawWriter {
    RawWriter::new(Cursor::new(Vec::new()), 500)
}

#[test]
fn name_hash_is_the_hash_of_the_text() {
    for text in ["", "a", "OnHit", "Größe"] {
        let mut hasher = DefaultHasher::new();
        text.hash(&mut hasher);
        assert_eq!(hash_name(text), hasher.finish());
    }
    assert_ne!(hash_name("a"), hash_name("b"));
    assert_ne!(hash_name("ab"), hash_name("a"));
}

#[test]
fn raw_reader_knows_versions_and_nothing_else() {
    let asset = reader(vec![1, 2, 3]);
    assert_eq!(asset.get_engine_version(), 500);
    assert_eq!(asset.position(), 0);
    assert_eq!(
        asset.get_custom_version(&FCoreObjectVersion::guid()),
        CustomVersion::new([0u8; 16], 0)
    );
    assert!(asset.get_map_key_override().is_empty());
    assert!(asset.get_map_value_override().is_empty());
    assert_eq!(asset.get_import(PackageIndex::new(-1)), None);
    assert_eq!(asset.get_export_class_type(PackageIndex::new(1)), None);
    let out = writer();
    assert_eq!(out.get_engine_version(), 500);
    assert!(out.get_map_key_override().is_empty());
    assert_eq!(out.get_import(PackageIndex::new(-1)), None);
}

#[test]
fn raw_reader_reads_a_name_as_a_string() {
    let mut asset = reader(vec![3, 0, 0, 0, b'a', b'b', 0, 0, 0, 0, 0, 9]);
    assert_eq!(asset.read_fname(), Ok(FName::new("ab".to_string(), 0)));
    assert_eq!(asset.read_fname(), Ok(FName::new("None".to_string(), 0)));
    assert_eq!(asset.read_property_guid(), Ok(None));
    assert_eq!(asset.position(), 11);
    assert_eq!(asset.read_bool(), Ok(true));
    assert_eq!(asset.read_bool(), Err(Error::Io(IoError::UnexpectedEof)));
    assert_eq!(asset.seek(SeekFrom::Start(4)), Ok(4));
    assert_eq!(asset.read_exact(2), Ok(vec![b'a', b'b']));
    asset.set_position(0);
    assert_eq!(asset.read_string(), Ok(Some("ab".to_string())));
}

#[test]
fn raw_writer_writes_a_name_as_its_text() {
    let mut out = writer();
    out.write_fname(&FName::new("ab".to_string(), 7)).unwrap();
    out.write_property_guid(&Some([1u8; 16])).unwrap();
    out.write_bool(true).unwrap();
    out.write_f32(1.0f32.to_bits()).unwrap();
    out.write_f64(1.0f64.to_bits()).unwrap();
    let bytes = out.into_cursor().into_inner();
    let mut expected = vec![3, 0, 0, 0, b'a', b'b', 0, 1];
    expected.extend_from_slice(&[0, 0, 0x80, 0x3F]);
    expected.extend_from_slice(&[0, 0, 0, 0, 0, 0, 0xF0, 0x3F]);
    assert_eq!(bytes, expected);
    let mut asset = reader(bytes);
    asset.set_position(8);
    assert_eq!(asset.read_f32().map(f32::from_bits), Ok(1.0));
    assert_eq!(asset.read_f64().map(f64::from_bits), Ok(1.0));
}

#[test]
fn properties_round_trip_through_a_name_table() {
    // the table of the file: names by index
    let mut bytes = 8i64.to_le_bytes().to_vec();
    bytes.extend_from_slice(&3i32.to_le_bytes());
    for name in ["None", "Count", "IntProperty"] {
        bytes.extend_from_slice(&(name.len() as i32 + 1).to_le_bytes());
        bytes.extend_from_slice(name.as_bytes());
        bytes.push(0);
    }
    let table = NameTableReader::new(reader(bytes)).unwrap();
    let lookup: HashMap<u64, i32> = table.name_map_lookup.clone();

    let export = NormalExport {
        base_export: BaseExport {
            class_name: FName::from_slice("Object"),
            outer_index: PackageIndex::new(0),
            object_flags: 0,
            serial_size: 0,
            serial_offset: 0,
        },
        extras: vec![],
        properties: vec![Property::IntProperty(IntProperty {
            name: FName::new("Count".to_string(), 3),
            property_guid: None,
            duplication_index: 0,
            value: -9,
        })],
    };
    let mut out = NameTableWriter::new(writer(), &lookup);
    ExportTrait::write(&export, &mut out).unwrap();
    let body = out.into_inner().into_cursor().into_inner();
    assert_eq!(
        body,
        vec![
            1, 0, 0, 0, 3, 0, 0, 0, // Count, 3
            2, 0, 0, 0, 0, 0, 0, 0, // IntProperty
            4, 0, 0, 0, 0, 0, 0, 0, // length, duplication index
            0xF7, 0xFF, 0xFF, 0xFF, // value
            0, 0, 0, 0, 0, 0, 0, 0, // None
        ]
    );

    let mut asset = NameTableReader {
        reader: reader(body),
        name_map: table.name_map.clone(),
        name_map_lookup: lookup,
    };
    let back = NormalExport::from_base(&export.base_export, &mut asset).unwrap();
    assert_eq!(back, export);
    assert_eq!(asset.position(), 36);
    assert_eq!(asset.get_engine_version(), 500);
}

#[test]
fn name_table_writer_needs_the_name_in_its_lookup() {
    let lookup = HashMap::new();
    let mut out = NameTableWriter::new(writer(), &lookup);
    assert_eq!(
        out.write_fname(&FName::from_slice("a")),
        Err(Error::NoData(NoDataError::NameReference))
    );
    assert_eq!(out.position(), 0);
    out.write_i32(5).unwrap();
    out.write_string(&None).unwrap();
    assert_eq!(out.into_inner().into_cursor().into_inner(), vec![5, 0, 0, 0, 0, 0, 0, 0]);
}

#[test]
fn links_lead_to_imports_exports_or_nothing() {
    assert!(PackageIndex::new(-1).is_import());
    assert!(!PackageIndex::new(-1).is_export());
    assert!(PackageIndex::new(2).is_export());
    assert!(!PackageIndex::new(2).is_import());
    assert!(PackageIndex::new(0).is_null());
    assert!(!PackageIndex::new(0).is_import());
    assert!(!PackageIndex::new(0).is_export());
    let import = Import::new(
        FName::from_slice("/Script/Engine"),
        FName::from_slice("Class"),
        PackageIndex::new(0),
        FName::from_slice("Actor"),
    );
    assert_eq!(import.object_name, FName::from_slice("Actor"));
    assert!(FName::from_slice("None").is_none());
    assert!(FName::new("None".to_string(), 4).is_none());
    assert!(!FName::from_slice("none").is_none());
    assert_eq!(FName::from_slice("a").duplicate(), FName::new("a".to_string(), 0));
}

#[test]
fn sixteen_bytes_make_an_identifier() {
    let bytes: Vec<u8> = (0..16).collect();
    let guid = guid_from_bytes(&bytes);
    assert_eq!(guid.to_vec(), bytes);
}

#[test]
fn custom_version_is_twenty_bytes() {
    let mut bytes: Vec<u8> = (1..=16).collect();
    bytes.extend_from_slice(&(-7i32).to_le_bytes());
    let mut asset = reader(bytes.clone());
    let version = CustomVersion::read(&mut asset).unwrap();
    assert_eq!(version.version, -7);
    assert_eq!(version.guid[15], 16);
    let mut out = writer();
    version.write(&mut out).unwrap();
    assert_eq!(out.into_cursor().into_inner(), bytes);
    let mut asset = reader(vec![0; 19]);
    assert_eq!(CustomVersion::read(&mut asset), Err(Error::Io(IoError::UnexpectedEof)));
}

#[test]
fn registry_versions_are_their_ordinals() {
    assert_eq!(FAssetRegistryVersionType::PreVersioning.ordinal(), 0);
    assert_eq!(FAssetRegistryVersionType::RemovedMD5Hash.ordinal(), 4);
    assert_eq!(FAssetRegistryVersionType::AddedDependencyFlags.ordinal(), 7);
    assert_eq!(FAssetRegistryVersionType::FixedTags.ordinal(), 8);
    assert_eq!(FAssetRegistryVersionType::PackageFileSummaryVersionChange.ordinal(), 11);
    for n in 0..12 {
        assert_eq!(FAssetRegistryVersionType::from_ordinal(n).unwrap().ordinal(), n);
    }
    assert_eq!(FAssetRegistryVersionType::from_ordinal(12), None);
    assert_eq!(FAssetRegistryVersionType::from_ordinal(-1), None);
    let fixed = FAssetRegistryVersionType::FixedTags;
    assert!(FAssetRegistryVersionType::RemovedMD5Hash.before(fixed));
    assert!(!fixed.before(fixed));
    assert!(fixed.at_least(fixed));
    assert!(fixed < FAssetRegistryVersionType::WorkspaceDomain);
    let mut asset = reader(vec![8, 0, 0, 0]);
    assert_eq!(FAssetRegistryVersionType::new(&mut asset), Ok(fixed));
    let mut asset = reader(vec![99, 0, 0, 0]);
    assert_eq!(
        FAssetRegistryVersionType::new(&mut asset),
        Err(Error::InvalidFile(InvalidFileError::UnknownRegistryVersion(99)))
    );
    let mut out = writer();
    fixed.write(&mut out).unwrap();
    assert_eq!(out.into_cursor().into_inner(), vec![8, 0, 0, 0]);
}

#[test]
fn hash_is_a_word_and_sixteen_bytes() {
    let mut bytes = vec![5, 0, 0, 0];
    bytes.extend_from_slice(&[0xAB; 16]);
    let mut asset = reader(bytes.clone());
    let hash = FMD5Hash::new(&mut asset).unwrap();
    assert_eq!(hash.hash, Some([0xAB; 16]));
    let mut out = writer();
    hash.write(&mut out).unwrap();
    bytes[0] = 1;
    assert_eq!(out.into_cursor().into_inner(), bytes);

    let mut asset = reader(vec![0, 0, 0, 0, 9]);
    let hash = FMD5Hash::new(&mut asset).unwrap();
    assert_eq!(hash.hash, None);
    assert_eq!(asset.position(), 4);
    let mut out = writer();
    hash.write(&mut out).unwrap();
    assert_eq!(out.into_cursor().into_inner(), vec![0, 0, 0, 0]);
}

#[test]
fn head_of_a_field_stores_the_next_field() {
    let mut asset = reader(vec![0xFE, 0xFF, 0xFF, 0xFF]);
    let field = UField::new(&mut asset).unwrap();
    assert_eq!(field.next, Some(PackageIndex::new(-2)));
    let mut out = writer();
    field.write(&mut out).unwrap();
    assert_eq!(out.into_cursor().into_inner(), vec![0xFE, 0xFF, 0xFF, 0xFF]);
    let mut out = writer();
    assert_eq!(
        UField { next: None }.write(&mut out),
        Err(Error::NoData(NoDataError::FieldNext))
    );
}

#[test]
fn descriptor_of_a_property_round_trips() {
    let descriptor = FProperty {
        serialized_type: FName::from_slice("IntProperty"),
        name: FName::from_slice("Count"),
        flags: 3,
        array_dim: 1,
        element_size: 4,
        property_flags: 0x0102_0304_0506_0708,
        rep_index: 9,
        rep_notify_func: FName::from_slice("None"),
        blueprint_replication_condition: 2,
    };
    let mut out = writer();
    FProperty::write(&descriptor, &mut out).unwrap();
    let bytes = out.into_cursor().into_inner();
    assert_eq!(bytes.len(), 16 + 10 + 4 + 4 + 4 + 8 + 2 + 9 + 1);
    assert_eq!(bytes[bytes.len() - 1], 2);
    let len = bytes.len() as u64;
    let mut asset = reader(bytes);
    assert_eq!(FProperty::new(&mut asset), Ok(descriptor));
    assert_eq!(asset.position(), len);
}

#[test]
fn bookkeeping_is_changed_in_place() {
    let mut export = RawExport {
        base_export: BaseExport {
            class_name: FName::from_slice("Thing"),
            outer_index: PackageIndex::new(0),
            object_flags: 0,
            serial_size: 3,
            serial_offset: 0,
        },
        data: vec![1, 2, 3],
    };
    export.get_base_export_mut().serial_offset = 64;
    assert_eq!(export.get_base_export().serial_offset, 64);
    assert_eq!(export.data, vec![1, 2, 3]);
    assert!(export.get_normal_export_mut().is_none());

    let mut normal = NormalExport {
        base_export: export.base_export.duplicate(),
        extras: vec![],
        properties: vec![],
    };
    normal.get_normal_export_mut().unwrap().extras.push(7);
    normal.get_base_export_mut().object_flags = 5;
    assert_eq!(normal.get_normal_export().unwrap().extras, vec![7]);
    assert_eq!(normal.base_export.object_flags, 5);
}

#[test]
fn array_is_a_count_and_as_many_items() {
    let mut bytes = Vec::new();
    for v in [2i32, 7, -9, 5] {
        bytes.extend_from_slice(&v.to_le_bytes());
    }
    let mut asset = reader(bytes);
    let items = asset.read_array(|a: &mut RawReader| a.read_i32());
    assert_eq!(items, Ok(vec![7, -9]));
    assert_eq!(asset.position(), 12);
}

#[test]
fn array_of_given_length_reads_no_count() {
    let mut asset = reader(vec![1, 0, 2, 0, 3, 0]);
    let items = asset.read_array_with_length(3, |a: &mut RawReader| a.read_u16());
    assert_eq!(items, Ok(vec![1, 2, 3]));
    assert_eq!(asset.position(), 6);
}

#[test]
fn array_of_negative_length_is_empty() {
    let mut asset = reader(vec![0xFF, 0xFF, 0xFF, 0xFF, 1, 0, 0, 0]);
    let items = asset.read_array(|a: &mut RawReader| a.read_i32());
    assert_eq!(items, Ok(Vec::new()));
    assert_eq!(asset.position(), 4);
    let items = asset.read_array_with_length(i32::MIN, |a: &mut RawReader| a.read_i32());
    assert_eq!(items, Ok(Vec::new()));
    assert_eq!(asset.position(), 4);
}

#[test]
fn array_ends_at_the_first_item_that_fails() {
    let mut bytes = Vec::new();
    for v in [3i32, 7, 8] {
        bytes.extend_from_slice(&v.to_le_bytes());
    }
    let mut asset = reader(bytes);
    let items = asset.read_array(|a: &mut RawReader| a.read_i32());
    assert_eq!(items, Err(Error::Io(IoError::UnexpectedEof)));
    // without its count
    let mut asset = reader(Vec::new());
    let items = asset.read_array(|a: &mut RawReader| a.read_i32());
    assert_eq!(items, Err(Error::Io(IoError::UnexpectedEof)));
}

#[test]
fn array_of_names_is_read_as_texts() {
    let mut bytes = vec![2, 0, 0, 0];
    bytes.extend_from_slice(&[3, 0, 0, 0]);
    bytes.extend_from_slice(b"Ab\0");
    bytes.extend_from_slice(&[2, 0, 0, 0]);
    bytes.extend_from_slice(b"C\0");
    let mut asset = reader(bytes);
    let items = asset.read_array(|a: &mut RawReader| a.read_fname());
    assert_eq!(items, Ok(vec![FName::from_slice("Ab"), FName::from_slice("C")]));
    assert_eq!(asset.position(), 17);
}
