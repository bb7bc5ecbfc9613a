use unreal_asset::cursor::Cursor;
use unreal_asset::error::{Error, IoError, NoDataError};
use unreal_asset::exports::base_export::BaseExport;
use unreal_asset::exports::level_export::LevelExport;
use unreal_asset::exports::normal_export::NormalExport;
use unreal_asset::exports::raw_export::RawExport;
use unreal_asset::exports::struct_export::{BytecodeMode, StructExport};
use unreal_asset::exports::{Export, ExportBaseTrait, ExportNormalTrait};
use unreal_asset::kismet::KismetExpression;
use unreal_asset::properties::int_property::{BoolProperty, IntProperty};
use unreal_asset::properties::Property;
use unreal_asset::reader::asset_trait::AssetTrait;
use unreal_asset::reader::raw_reader::RawReader;
use unreal_asset::reader::raw_writer::RawWriter;
use unreal_asset::ue4version::VER_UE4_16;
use unreal_asset::unreal_types::{FName, NamespacedString, PackageIndex};
use unreal_asset::uproperty::UField;

fn base(class: &str, serial_size: i64) -> BaseExport {
    BaseExport {
        class_name: FName::from_slice(class),
        outer_index: PackageIndex::new(0),
        object_flags: 0,
        serial_size,
        serial_offset: 0,
    }
}

fn reader(bytes: Vec<u8>, engine_version: i32) -> RawReader {
    RawReader::new(Cursor::new(bytes), engine_version)
}

fn writer(engine_version: i32) -> RawWriter {
    RawWriter::new(Cursor::new(Vec::new()), engine_version)
}

fn properties() -> Vec<Property> {
    vec![
        Property::IntProperty(IntProperty {
            name: FName::from_slice("Count"),
            property_guid: None,
            duplication_index: 0,
            value: 3,
        }),
        Property::BoolProperty(BoolProperty {
            name: FName::from_slice("On"),
            property_guid: None,
            duplication_index: 0,
            value: true,
        }),
    ]
}

fn normal(extras: Vec<u8>) -> NormalExport {
    NormalExport { base_export: base("Object", 0), extras, properties: properties() }
}

fn bytes_of_normal(export: &NormalExport) -> Vec<u8> {
    let mut out = writer(VER_UE4_16);
    export.write(&mut out).unwrap();
    out.into_cursor().into_inner()
}

#[test]
fn raw_export_is_as_many_bytes_as_declared() {
    let mut asset = reader(vec![1, 2, 3, 4, 5], 0);
    let export = RawExport::from_base(base("Thing", 3), &mut asset).unwrap();
    assert_eq!(export.data, vec![1, 2, 3]);
    assert_eq!(asset.position(), 3);
    assert!(export.get_normal_export().is_none());
    assert_eq!(export.get_base_export().serial_size, 3);
    let mut out = writer(0);
    export.write(&mut out).unwrap();
    assert_eq!(out.into_cursor().into_inner(), vec![1, 2, 3]);

    let mut asset = reader(vec![1, 2, 3, 4, 5], 0);
    assert_eq!(
        RawExport::from_base(base("Thing", 6), &mut asset),
        Err(Error::Io(IoError::UnexpectedEof))
    );
    let mut asset = reader(vec![1, 2, 3, 4, 5], 0);
    assert_eq!(
        RawExport::from_base(base("Thing", -1), &mut asset),
        Err(Error::Io(IoError::UnexpectedEof))
    );
}

#[test]
fn normal_export_is_properties_none_and_extras() {
    let export = normal(vec![0xAA, 0xBB]);
    let bytes = bytes_of_normal(&export);
    assert!(bytes.ends_with(&[5, 0, 0, 0, b'N', b'o', b'n', b'e', 0, 0xAA, 0xBB]));
    let len = bytes.len() as u64;

    let mut asset = reader(bytes.clone(), VER_UE4_16);
    let back = NormalExport::from_base_with_extras(&base("Object", 0), &mut asset, len).unwrap();
    assert_eq!(back, export);
    assert_eq!(asset.position(), len);

    let mut asset = reader(bytes, VER_UE4_16);
    let back = NormalExport::from_base(&base("Object", 0), &mut asset).unwrap();
    assert_eq!(back.properties, export.properties);
    assert_eq!(back.extras, Vec::<u8>::new());
    assert_eq!(asset.position(), len - 2);
}

#[test]
fn normal_export_without_extras_before_the_position() {
    let export = normal(vec![]);
    let bytes = bytes_of_normal(&export);
    let mut asset = reader(bytes, VER_UE4_16);
    let back = NormalExport::from_base_with_extras(&base("Object", 0), &mut asset, 2).unwrap();
    assert_eq!(back, export);
}

#[test]
fn normal_export_without_end_is_end_of_file() {
    let export = normal(vec![]);
    let mut bytes = bytes_of_normal(&export);
    bytes.truncate(bytes.len() - 9);
    let mut asset = reader(bytes, VER_UE4_16);
    assert_eq!(
        NormalExport::from_base(&base("Object", 0), &mut asset),
        Err(Error::Io(IoError::UnexpectedEof))
    );
}

fn level() -> LevelExport {
    LevelExport {
        normal_export: normal(vec![]),
        index_data: vec![4, -5, 6],
        level_type: NamespacedString::new(Some("Game".to_string()), Some("Größe".to_string())),
        flags_probably: 0x0102_0304_0506_0708,
        misc_category_data: vec![10, 11],
    }
}

fn bytes_of_level(export: &LevelExport) -> Vec<u8> {
    let mut out = writer(VER_UE4_16);
    export.write(&mut out).unwrap();
    out.into_cursor().into_inner()
}

#[test]
fn level_export_round_trips() {
    let export = level();
    let bytes = bytes_of_level(&export);
    let len = bytes.len() as u64;
    let mut asset = reader(bytes, VER_UE4_16);
    let back = LevelExport::from_base(&base("Object", 0), &mut asset, len).unwrap();
    assert_eq!(back, export);
    assert_eq!(asset.position(), len);
}

#[test]
fn level_export_layout_behind_the_properties() {
    let export = LevelExport {
        normal_export: NormalExport {
            base_export: base("Level", 0),
            extras: vec![],
            properties: vec![],
        },
        index_data: vec![7],
        level_type: NamespacedString::new(None, Some("a".to_string())),
        flags_probably: 9,
        misc_category_data: vec![1],
    };
    let bytes = bytes_of_level(&export);
    let mut expected = vec![5, 0, 0, 0, b'N', b'o', b'n', b'e', 0];
    expected.extend_from_slice(&[0, 0, 0, 0]);
    expected.extend_from_slice(&[1, 0, 0, 0, 7, 0, 0, 0]);
    expected.extend_from_slice(&[0, 0, 0, 0]);
    expected.extend_from_slice(&[0, 0, 0, 0]);
    expected.extend_from_slice(&[2, 0, 0, 0, b'a', 0]);
    expected.extend_from_slice(&[0; 8]);
    expected.extend_from_slice(&[9, 0, 0, 0, 0, 0, 0, 0]);
    expected.extend_from_slice(&[1, 0, 0, 0]);
    expected.push(0);
    assert_eq!(bytes, expected);
}

#[test]
fn level_export_reads_up_to_one_byte_before_the_next_export() {
    let export = level();
    let mut bytes = bytes_of_level(&export);
    let len = bytes.len() as u64;
    bytes.extend_from_slice(&[0xEE; 8]);
    let mut asset = reader(bytes.clone(), VER_UE4_16);
    let back = LevelExport::from_base(&base("Object", 0), &mut asset, len).unwrap();
    assert_eq!(back.misc_category_data, vec![10, 11]);
    // the last byte is consumed
    assert_eq!(asset.position(), len);

    // a next export four bytes later takes one more integer: the last
    // byte and three of the bytes behind it
    let mut asset = reader(bytes, VER_UE4_16);
    let back = LevelExport::from_base(&base("Object", 0), &mut asset, len + 4).unwrap();
    assert_eq!(back.misc_category_data, vec![10, 11, i32::from_le_bytes([0, 0xEE, 0xEE, 0xEE])]);
    assert_eq!(asset.position(), len + 4);
}

#[test]
fn level_export_needs_its_last_byte() {
    let export = level();
    let mut bytes = bytes_of_level(&export);
    let len = bytes.len() as u64;
    bytes.pop();
    let mut asset = reader(bytes, VER_UE4_16);
    assert_eq!(
        LevelExport::from_base(&base("Object", 0), &mut asset, len),
        Err(Error::Io(IoError::UnexpectedEof))
    );
}

#[test]
fn level_export_under_its_earlier_name() {
    let export = level();
    let bytes = bytes_of_level(&export);
    let len = bytes.len() as u64;
    let mut asset = reader(bytes, VER_UE4_16);
    assert_eq!(LevelExport::from_unk(&base("Object", 0), &mut asset, len), Ok(export));
}

fn three_expressions() -> Vec<KismetExpression> {
    vec![
        KismetExpression::ExObjectConst(PackageIndex::new(2)),
        KismetExpression::ExReturn(Box::new(KismetExpression::ExIntConst(5))),
        KismetExpression::ExEndOfScript,
    ]
}

fn struct_export(code: Option<Vec<KismetExpression>>, raw: Option<Vec<u8>>) -> StructExport {
    StructExport {
        normal_export: normal(vec![]),
        field: UField { next: Some(PackageIndex::new(4)) },
        super_struct: PackageIndex::new(-2),
        children: vec![PackageIndex::new(1), PackageIndex::new(2)],
        loaded_properties: vec![],
        script_bytecode: code,
        script_bytecode_size: 77,
        script_bytecode_raw: raw,
    }
}

fn bytes_of_struct(export: &StructExport, engine_version: i32) -> Vec<u8> {
    let mut out = writer(engine_version);
    export.write(&mut out).unwrap();
    out.into_cursor().into_inner()
}

#[test]
fn struct_export_with_three_expressions_round_trips() {
    let export = struct_export(Some(three_expressions()), None);
    let bytes = bytes_of_struct(&export, VER_UE4_16);
    let len = bytes.len() as u64;
    let mut asset = reader(bytes.clone(), VER_UE4_16);
    let back = StructExport::from_base(&base("Object", 0), &mut asset).unwrap();
    assert_eq!(back.bytecode_mode(), BytecodeMode::Decoded);
    assert_eq!(back.script_bytecode, Some(three_expressions()));
    assert_eq!(back.script_bytecode_raw, None);
    // the size in memory is what was put into the first slot
    assert_eq!(back.script_bytecode_size, 9 + 6 + 1);
    assert_eq!(back.children, export.children);
    assert_eq!(back.field, export.field);
    assert_eq!(back.super_struct, export.super_struct);
    assert_eq!(asset.position(), len);
    assert_eq!(bytes_of_struct(&back, VER_UE4_16), bytes);
}

#[test]
fn struct_export_fills_both_slots() {
    let export = struct_export(Some(three_expressions()), None);
    let bytes = bytes_of_struct(&export, VER_UE4_16);
    // on disk: five bytes, six bytes, one byte
    let code = 5 + 6 + 1;
    let slots = bytes.len() - code - 8;
    assert_eq!(&bytes[slots..slots + 4], &16i32.to_le_bytes());
    assert_eq!(&bytes[slots + 4..slots + 8], &12i32.to_le_bytes());
    assert_eq!(
        &bytes[slots + 8..],
        &[0x20, 2, 0, 0, 0, 0x04, 0x1D, 5, 0, 0, 0, 0x53]
    );
}

#[test]
fn struct_export_with_unknown_instruction_is_kept_raw() {
    let export = struct_export(Some(three_expressions()), None);
    let mut bytes = bytes_of_struct(&export, VER_UE4_16);
    let start = bytes.len() - 12;
    bytes[start] = 0xEE;
    let len = bytes.len() as u64;
    let mut asset = reader(bytes.clone(), VER_UE4_16);
    let back = StructExport::from_base(&base("Object", 0), &mut asset).unwrap();
    assert_eq!(back.bytecode_mode(), BytecodeMode::Raw);
    assert_eq!(back.script_bytecode, None);
    assert_eq!(back.script_bytecode_raw, Some(bytes[start..].to_vec()));
    assert_eq!(back.script_bytecode_raw.as_ref().unwrap().len(), 12);
    assert_eq!(asset.position(), len);

    // written and read again, the raw bytes are the same
    let again = bytes_of_struct(&back, VER_UE4_16);
    assert_eq!(again, bytes);
    let mut asset = reader(again, VER_UE4_16);
    let second = StructExport::from_base(&base("Object", 0), &mut asset).unwrap();
    assert_eq!(second, back);
}

#[test]
fn struct_export_before_engine_version_is_kept_raw() {
    let export = struct_export(Some(three_expressions()), None);
    let bytes = bytes_of_struct(&export, VER_UE4_16 - 1);
    let mut asset = reader(bytes.clone(), VER_UE4_16 - 1);
    let back = StructExport::from_base(&base("Object", 0), &mut asset).unwrap();
    assert_eq!(back.bytecode_mode(), BytecodeMode::Raw);
    assert_eq!(back.script_bytecode_raw, Some(bytes[bytes.len() - 12..].to_vec()));
    assert_eq!(back.script_bytecode_size, 16);
}

#[test]
fn struct_export_with_raw_bytes_writes_the_stored_size() {
    let export = struct_export(None, Some(vec![1, 2, 3]));
    let bytes = bytes_of_struct(&export, 0);
    assert!(bytes.ends_with(&[77, 0, 0, 0, 3, 0, 0, 0, 1, 2, 3]));
}

#[test]
fn struct_export_without_bytecode_cannot_be_written() {
    let export = struct_export(None, None);
    let mut out = writer(VER_UE4_16);
    assert_eq!(export.write(&mut out), Err(Error::NoData(NoDataError::Bytecode)));
}

#[test]
fn struct_export_without_link_cannot_be_written() {
    let mut export = struct_export(None, Some(vec![]));
    export.field = UField { next: None };
    let mut out = writer(VER_UE4_16);
    assert_eq!(export.write(&mut out), Err(Error::NoData(NoDataError::FieldNext)));
}

#[test]
fn bytecode_is_read_up_to_the_declared_size() {
    let bytes = vec![0x0B, 0x1D, 1, 0, 0, 0, 0x53, 0x53];
    let mut asset = reader(bytes.clone(), VER_UE4_16);
    let code = StructExport::read_bytecode(&mut asset, 0, 7).unwrap();
    assert_eq!(
        code,
        vec![
            KismetExpression::ExNothing,
            KismetExpression::ExIntConst(1),
            KismetExpression::ExEndOfScript
        ]
    );
    assert_eq!(asset.position(), 7);
    // the last expression may reach past the declared size
    let mut asset = reader(bytes.clone(), VER_UE4_16);
    let code = StructExport::read_bytecode(&mut asset, 0, 2).unwrap();
    assert_eq!(code.len(), 2);
    assert_eq!(asset.position(), 6);
    let mut asset = reader(bytes, VER_UE4_16);
    assert_eq!(StructExport::read_bytecode(&mut asset, 0, 0), Ok(vec![]));
    assert_eq!(asset.position(), 0);
}

#[test]
fn export_is_read_by_the_name_of_its_class() {
    let export = level();
    let bytes = bytes_of_level(&export);
    let len = bytes.len() as u64;
    let mut asset = reader(bytes, VER_UE4_16);
    let back = Export::from_base(&base("Level", 0), &mut asset, len).unwrap();
    assert!(matches!(back, Export::LevelExport(_)));

    let export = struct_export(Some(three_expressions()), None);
    let bytes = bytes_of_struct(&export, VER_UE4_16);
    let mut asset = reader(bytes.clone(), VER_UE4_16);
    let back = Export::from_base(&base("ScriptStruct", 0), &mut asset, 0).unwrap();
    assert!(matches!(back, Export::StructExport(_)));
    let mut out = writer(VER_UE4_16);
    back.write(&mut out).unwrap();
    assert_eq!(out.into_cursor().into_inner(), bytes);

    let export = normal(vec![1, 2]);
    let bytes = bytes_of_normal(&export);
    let len = bytes.len() as u64;
    let mut asset = reader(bytes, VER_UE4_16);
    let back = Export::from_base(&base("Object", 0), &mut asset, len).unwrap();
    assert_eq!(back, Export::NormalExport(export));
}
