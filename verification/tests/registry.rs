use unreal_asset::cursor::Cursor;
use unreal_asset::custom_version::FAssetRegistryVersionType;
use unreal_asset::error::{Error, InvalidFileError, IoError, RegistryError, RegistryField};
use unreal_asset::reader::asset_reader::AssetReader;
use unreal_asset::reader::asset_trait::AssetTrait;
use unreal_asset::reader::raw_reader::RawReader;
use unreal_asset::registry::name_table_reader::NameTableReader;
use unreal_asset::registry::objects::asset_package_data::AssetPackageData;
use unreal_asset::registry::AssetRegistryState;
use unreal_asset::unreal_types::FName;

fn i32s(values: &[i32]) -> Vec<u8> {
    values.iter().flat_map(|v| v.to_le_bytes()).collect()
}

fn text(s: &str) -> Vec<u8> {
    let mut bytes = (s.len() as i32 + 1).to_le_bytes().to_vec();
    bytes.extend_from_slice(s.as_bytes());
    bytes.push(0);
    bytes
}

fn read(bytes: Vec<u8>, engine_version: i32) -> Result<AssetRegistryState, Error> {
    AssetRegistryState::new(RawReader::new(Cursor::new(bytes), engine_version))
}

fn write(state: &AssetRegistryState) -> Result<Vec<u8>, Error> {
    let mut cursor = Cursor::new(Vec::new());
    state.write(&mut cursor)?;
    Ok(cursor.into_inner())
}

fn empty_registry(version: i32) -> Vec<u8> {
    let mut bytes = i32s(&[version, 0]);
    if version >= 7 {
        bytes.extend_from_slice(&4i64.to_le_bytes());
    }
    bytes.extend_from_slice(&i32s(&[0, 0]));
    bytes
}

#[test]
fn empty_registry_with_names_in_place() {
    let bytes = empty_registry(8);
    assert_eq!(
        bytes,
        vec![8, 0, 0, 0, 0, 0, 0, 0, 4, 0, 0, 0, 0, 0, 0, 0, 0, 0, 0, 0, 0, 0, 0, 0]
    );
    let state = read(bytes.clone(), 0).unwrap();
    assert_eq!(state.get_version(), FAssetRegistryVersionType::FixedTags);
    assert!(state.assets_data.is_empty());
    assert!(state.depends_nodes.is_empty());
    assert!(state.package_data.is_empty());
    assert_eq!(write(&state), Ok(bytes));
}

#[test]
fn registry_before_the_oldest_layout_is_refused() {
    for version in 0..4 {
        assert_eq!(
            read(empty_registry(version), 0).err(),
            Some(Error::InvalidFile(InvalidFileError::UnsupportedRegistryVersion(version)))
        );
    }
}

#[test]
fn registry_of_unknown_version_is_refused() {
    for version in [-1, 12, 1000] {
        assert_eq!(
            read(empty_registry(version), 0).err(),
            Some(Error::InvalidFile(InvalidFileError::UnknownRegistryVersion(version)))
        );
    }
    assert_eq!(read(vec![8, 0], 0).err(), Some(Error::Io(IoError::UnexpectedEof)));
}

/// A registry of version 7 with two nodes and the names `A` and `B`.
fn two_nodes(engine_version: i32) -> Vec<u8> {
    let mut nodes = Vec::new();
    // node 0: package A, depends on node 1 with flags 3
    nodes.extend_from_slice(&i32s(&[0, 0, 1, 1, 1, 3, 0]));
    // node 1: package B, is referred to by node 0
    nodes.extend_from_slice(&i32s(&[1, 0, 0, 0, 1, 0]));
    let mut body = i32s(&[0]);
    body.extend_from_slice(&(4 + nodes.len() as i64).to_le_bytes());
    body.extend_from_slice(&i32s(&[2]));
    body.extend_from_slice(&nodes);
    body.extend_from_slice(&i32s(&[0]));
    let mut bytes = i32s(&[7]);
    bytes.extend_from_slice(&(12 + body.len() as i64).to_le_bytes());
    bytes.extend_from_slice(&body);
    bytes.extend_from_slice(&i32s(&[2]));
    for name in ["A", "B"] {
        bytes.extend_from_slice(&text(name));
        if engine_version >= 504 {
            bytes.extend_from_slice(&[0; 4]);
        }
    }
    bytes
}

#[test]
fn two_nodes_with_flags_and_the_length_of_their_section() {
    let bytes = two_nodes(0);
    let state = read(bytes.clone(), 0).unwrap();
    assert_eq!(state.get_version(), FAssetRegistryVersionType::AddedDependencyFlags);
    assert_eq!(state.depends_nodes.len(), 2);
    assert_eq!(state.depends_nodes[0].identifier, FName::new("A".to_string(), 0));
    assert_eq!(state.depends_nodes[0].dependencies, vec![1]);
    assert_eq!(state.depends_nodes[0].flags, vec![3]);
    assert_eq!(state.depends_nodes[0].index, 0);
    assert_eq!(state.depends_nodes[1].identifier, FName::new("B".to_string(), 0));
    assert_eq!(state.depends_nodes[1].referencers, vec![0]);
    assert_eq!(state.depends_nodes[1].index, 1);

    let written = write(&state).unwrap();
    assert_eq!(written, bytes);
    // behind the version: the offset of the name table; behind the
    // number of assets: the length of the section of the nodes
    let slot = 4 + 8 + 4;
    let size = i64::from_le_bytes(written[slot..slot + 8].try_into().unwrap());
    let nodes = 7 * 4 + 6 * 4;
    assert_eq!(size, 4 + nodes);
    let end_of_last_node = slot + 8 + size as usize;
    // what follows the last node is the number of packages and the name table
    assert_eq!(&written[end_of_last_node..end_of_last_node + 4], &[0, 0, 0, 0]);
    let name_offset = i64::from_le_bytes(written[4..12].try_into().unwrap());
    assert_eq!(name_offset as usize, end_of_last_node + 4);
}

#[test]
fn name_table_with_hashes_from_the_engine_version_on() {
    let bytes = two_nodes(504);
    let state = read(bytes.clone(), 504).unwrap();
    assert_eq!(state.depends_nodes[1].identifier, FName::new("B".to_string(), 0));
    assert_eq!(write(&state), Ok(bytes));
    // read as an older engine version, the hashes are taken for a string
    assert!(read(two_nodes(504), 503).is_err());
}

#[test]
fn reading_goes_on_where_the_length_of_the_section_leads() {
    let mut bytes = two_nodes(0);
    // make the section four bytes longer than its nodes and put the
    // number of packages behind a word of padding
    let slot = 4 + 8 + 4;
    let size = i64::from_le_bytes(bytes[slot..slot + 8].try_into().unwrap());
    bytes[slot..slot + 8].copy_from_slice(&(size + 4).to_le_bytes());
    let end = slot + 8 + size as usize;
    bytes.splice(end..end, [0xEE, 0xEE, 0xEE, 0xEE]);
    let offset = i64::from_le_bytes(bytes[4..12].try_into().unwrap());
    bytes[4..12].copy_from_slice(&(offset + 4).to_le_bytes());
    let state = read(bytes, 0).unwrap();
    assert_eq!(state.depends_nodes.len(), 2);
    assert!(state.package_data.is_empty());
}

#[test]
fn dependency_that_leads_nowhere_is_refused() {
    let mut bytes = two_nodes(0);
    // the dependency of node 0
    let at = 4 + 8 + 4 + 8 + 4 + 3 * 4;
    bytes[at..at + 4].copy_from_slice(&2i32.to_le_bytes());
    assert_eq!(
        read(bytes, 0).err(),
        Some(Error::InvalidFile(InvalidFileError::DependencyIndex(2)))
    );
}

#[test]
fn nodes_without_flags() {
    // version 6 with name table: the number of nodes, then for each node
    // the package, two numbers and the edges
    let mut body = i32s(&[0, 2]);
    body.extend_from_slice(&i32s(&[0, 5, 1, 0, 1]));
    body.extend_from_slice(&i32s(&[1, 0, 0, 1, 0]));
    body.extend_from_slice(&i32s(&[0]));
    let mut bytes = i32s(&[6]);
    bytes.extend_from_slice(&(12 + body.len() as i64).to_le_bytes());
    bytes.extend_from_slice(&body);
    bytes.extend_from_slice(&i32s(&[2]));
    bytes.extend_from_slice(&text("A"));
    bytes.extend_from_slice(&text("B"));
    let state = read(bytes.clone(), 0).unwrap();
    assert_eq!(state.depends_nodes[0].identifier, FName::new("A".to_string(), 5));
    assert_eq!(state.depends_nodes[0].dependencies, vec![1]);
    assert!(state.depends_nodes[0].flags.is_empty());
    assert_eq!(state.depends_nodes[1].referencers, vec![0]);
    assert_eq!(write(&state), Ok(bytes));
}

/// The data of a package named `Pkg` as a registry of the given version
/// stores it, with names in place.
fn package(version: i32) -> Vec<u8> {
    let mut bytes = text("Pkg");
    bytes.extend_from_slice(&1234i64.to_le_bytes());
    bytes.extend_from_slice(&[7u8; 16]);
    if version >= 6 {
        bytes.extend_from_slice(&1u32.to_le_bytes());
        bytes.extend_from_slice(&[9u8; 16]);
    }
    if version >= 9 {
        bytes.extend_from_slice(&i32s(&[522]));
        if version >= 11 {
            bytes.extend_from_slice(&i32s(&[1004]));
        }
        bytes.extend_from_slice(&i32s(&[-3]));
        bytes.extend_from_slice(&0x10u32.to_le_bytes());
        bytes.extend_from_slice(&i32s(&[1]));
        bytes.extend_from_slice(&[3u8; 16]);
        bytes.extend_from_slice(&i32s(&[42]));
    }
    if version >= 10 {
        bytes.extend_from_slice(&i32s(&[2]));
        bytes.extend_from_slice(&text("Actor"));
        bytes.extend_from_slice(&text("Pawn"));
    }
    bytes
}

fn read_package(version: FAssetRegistryVersionType) -> (AssetPackageData, Vec<u8>) {
    let bytes = package(version.ordinal());
    let mut reader = RawReader::new(Cursor::new(bytes.clone()), 0);
    let data = AssetPackageData::new(&mut reader, version).unwrap();
    assert_eq!(reader.position(), bytes.len() as u64);
    (data, bytes)
}

fn write_package(data: &AssetPackageData) -> Result<Vec<u8>, Error> {
    let mut writer =
        unreal_asset::reader::raw_writer::RawWriter::new(Cursor::new(Vec::new()), 0);
    data.write(&mut writer)?;
    Ok(writer.into_cursor().into_inner())
}

#[test]
fn package_data_holds_what_its_version_stores() {
    for version in [
        FAssetRegistryVersionType::RemovedMD5Hash,
        FAssetRegistryVersionType::AddedHardManage,
        FAssetRegistryVersionType::AddedCookedMD5Hash,
        FAssetRegistryVersionType::AddedDependencyFlags,
        FAssetRegistryVersionType::FixedTags,
        FAssetRegistryVersionType::WorkspaceDomain,
        FAssetRegistryVersionType::PackageImportedClasses,
        FAssetRegistryVersionType::PackageFileSummaryVersionChange,
    ] {
        let (data, bytes) = read_package(version);
        let ordinal = version.ordinal();
        assert_eq!(data.get_version(), version);
        assert_eq!(data.package_name, FName::from_slice("Pkg"));
        assert_eq!(data.disk_size, 1234);
        assert_eq!(data.package_guid, [7u8; 16]);
        assert_eq!(data.cooked_hash.is_some(), ordinal >= 6);
        assert_eq!(data.custom_versions.is_some(), ordinal >= 9);
        assert_eq!(data.imported_classes.is_some(), ordinal >= 10);
        assert_eq!(data.ue5_version.is_some(), ordinal >= 11);
        if ordinal >= 9 {
            assert_eq!(data.file_version, 522);
            assert_eq!(data.file_version_licensee_ue, -3);
            assert_eq!(data.flags, 0x10);
            assert_eq!(data.custom_versions.as_ref().unwrap()[0].version, 42);
        } else {
            assert_eq!(data.file_version, 0);
            assert_eq!(data.file_version_licensee_ue, -1);
            assert_eq!(data.flags, 0);
        }
        if ordinal >= 11 {
            assert_eq!(data.ue5_version, Some(1004));
        }
        if ordinal >= 10 {
            assert_eq!(
                data.imported_classes,
                Some(vec![FName::from_slice("Actor"), FName::from_slice("Pawn")])
            );
        }
        assert_eq!(write_package(&data), Ok(bytes));
    }
}

#[test]
fn package_data_without_a_stored_part_cannot_be_written() {
    let (mut data, _) = read_package(FAssetRegistryVersionType::PackageFileSummaryVersionChange);
    data.imported_classes = None;
    assert_eq!(
        write_package(&data),
        Err(Error::Registry(RegistryError::Version(RegistryField::ImportedClasses, 11)))
    );
    data.custom_versions = None;
    assert_eq!(
        write_package(&data),
        Err(Error::Registry(RegistryError::Version(RegistryField::CustomVersions, 11)))
    );
    data.ue5_version = None;
    assert_eq!(
        write_package(&data),
        Err(Error::Registry(RegistryError::Version(RegistryField::Ue5Version, 11)))
    );
    data.cooked_hash = None;
    assert_eq!(
        write_package(&data),
        Err(Error::Registry(RegistryError::Version(RegistryField::CookedHash, 11)))
    );
    // a version that stores none of them needs none of them
    let (mut data, bytes) = read_package(FAssetRegistryVersionType::RemovedMD5Hash);
    data.cooked_hash = None;
    assert_eq!(write_package(&data), Ok(bytes));
}

/// A registry of version 8 with one asset and one package.
fn full_registry() -> Vec<u8> {
    let mut bytes = i32s(&[8, 1]);
    for name in ["/Game/A.A", "/Game", "Texture", "/Game/A", "A"] {
        bytes.extend_from_slice(&text(name));
    }
    bytes.extend_from_slice(&i32s(&[2]));
    bytes.extend_from_slice(&text("Size"));
    bytes.extend_from_slice(&text("64"));
    bytes.extend_from_slice(&text("Note"));
    bytes.extend_from_slice(&i32s(&[0]));
    bytes.extend_from_slice(&i32s(&[3, 1, 2, 3]));
    bytes.extend_from_slice(&0x8000_0000u32.to_le_bytes());
    // one node without edges
    let node = {
        let mut node = text("/Game/A");
        node.extend_from_slice(&i32s(&[0, 0, 0]));
        node
    };
    bytes.extend_from_slice(&(4 + node.len() as i64).to_le_bytes());
    bytes.extend_from_slice(&i32s(&[1]));
    bytes.extend_from_slice(&node);
    bytes.extend_from_slice(&i32s(&[1]));
    bytes.extend_from_slice(&package(8));
    bytes
}

#[test]
fn registry_with_asset_node_and_package_round_trips() {
    let bytes = full_registry();
    let state = read(bytes.clone(), 0).unwrap();
    let asset = &state.assets_data[0];
    assert_eq!(asset.object_path, FName::from_slice("/Game/A.A"));
    assert_eq!(asset.asset_name, FName::from_slice("A"));
    assert_eq!(asset.tags_and_values.len(), 2);
    assert_eq!(asset.tags_and_values[0].value, Some("64".to_string()));
    assert_eq!(asset.tags_and_values[1].value, None);
    assert_eq!(asset.chunk_ids, vec![1, 2, 3]);
    assert_eq!(asset.package_flags, 0x8000_0000);
    assert_eq!(state.package_data[0].cooked_hash.unwrap().hash, Some([9u8; 16]));
    let written = write(&state).unwrap();
    assert_eq!(written, bytes);
    let again = read(written, 0).unwrap();
    assert_eq!(again.assets_data, state.assets_data);
    assert_eq!(again.depends_nodes, state.depends_nodes);
    assert_eq!(again.package_data, state.package_data);
}

#[test]
fn registry_is_written_at_the_position_of_the_cursor() {
    let state = read(two_nodes(0), 0).unwrap();
    let mut cursor = Cursor::new(vec![0xAA; 3]);
    cursor.set_position(3);
    state.write(&mut cursor).unwrap();
    let bytes = cursor.into_inner();
    assert_eq!(&bytes[..3], &[0xAA; 3]);
    let offset = i64::from_le_bytes(bytes[7..15].try_into().unwrap());
    // the offset of the name table counts from the start of the stream
    assert_eq!(&bytes[offset as usize..offset as usize + 4], &[2, 0, 0, 0]);
}

#[test]
fn negative_counts_announce_nothing() {
    let mut bytes = i32s(&[8, -1]);
    bytes.extend_from_slice(&4i64.to_le_bytes());
    bytes.extend_from_slice(&i32s(&[-5, -7]));
    let state = read(bytes, 0).unwrap();
    assert!(state.assets_data.is_empty());
    assert!(state.depends_nodes.is_empty());
    assert!(state.package_data.is_empty());
}

#[test]
fn a_name_added_twice_keeps_its_index() {
    let mut state = read(two_nodes(0), 0).unwrap();
    let first = state.add_name_reference("C", false);
    let second = state.add_name_reference("C", false);
    assert_eq!(first, 2);
    assert_eq!(second, first);
    assert_eq!(state.add_fname("C"), first);
    assert_eq!(state.add_fname("D"), 3);
}

#[test]
fn names_added_as_duplicates_get_increasing_indices() {
    let mut state = read(two_nodes(0), 0).unwrap();
    let first = state.add_name_reference("C", true);
    let second = state.add_name_reference("C", true);
    let third = state.add_name_reference("A", true);
    assert_eq!((first, second, third), (2, 3, 4));
    // the lookup leads to the entry that was added last
    assert_eq!(state.add_name_reference("C", false), 3);
    assert_eq!(state.add_name_reference("A", false), 4);
}

#[test]
fn a_registry_without_name_table_takes_no_names() {
    let mut state = read(empty_registry(8), 0).unwrap();
    assert_eq!(state.add_name_reference("C", false), 0);
    assert_eq!(state.add_name_reference("C", true), 0);
    assert_eq!(write(&state), Ok(empty_registry(8)));
}

#[test]
fn added_names_are_written_with_the_table() {
    let mut state = read(two_nodes(0), 0).unwrap();
    let index = state.add_fname("Größe");
    state.depends_nodes[1].identifier = FName::new("Größe".to_string(), 6);
    let written = write(&state).unwrap();
    let again = read(written, 0).unwrap();
    assert_eq!(again.depends_nodes[1].identifier, FName::new("Größe".to_string(), 6));
    assert_eq!(index, 2);
}

#[test]
fn a_name_outside_the_table_cannot_be_written() {
    let mut state = read(two_nodes(0), 0).unwrap();
    state.depends_nodes[0].identifier = FName::from_slice("Missing");
    assert_eq!(
        write(&state),
        Err(Error::NoData(unreal_asset::error::NoDataError::NameReference))
    );
}

fn table_reader(bytes: Vec<u8>, engine_version: i32) -> Result<NameTableReader<RawReader>, Error> {
    NameTableReader::new(RawReader::new(Cursor::new(bytes), engine_version))
}

#[test]
fn name_table_reader_resolves_indices() {
    let mut bytes = 16i64.to_le_bytes().to_vec();
    bytes.extend_from_slice(&i32s(&[1, 4]));
    bytes.extend_from_slice(&i32s(&[2]));
    bytes.extend_from_slice(&text("Zero"));
    bytes.extend_from_slice(&text("One"));
    let mut reader = table_reader(bytes, 0).unwrap();
    assert_eq!(reader.name_map, vec!["Zero".to_string(), "One".to_string()]);
    assert_eq!(reader.position(), 8);
    assert_eq!(reader.read_fname(), Ok(FName::new("One".to_string(), 4)));
    assert_eq!(reader.position(), 16);
    // the number of names is no index into the table
    assert_eq!(
        reader.read_fname(),
        Err(Error::InvalidFile(InvalidFileError::NameIndex(2)))
    );
}

#[test]
fn name_table_reader_refuses_a_negative_index() {
    let mut bytes = 0i64.to_le_bytes().to_vec();
    bytes.extend_from_slice(&i32s(&[-1, 0]));
    let mut reader = table_reader(bytes, 0).unwrap();
    assert!(reader.name_map.is_empty());
    assert_eq!(
        reader.read_fname(),
        Err(Error::InvalidFile(InvalidFileError::NameIndex(-1)))
    );
}

#[test]
fn name_table_with_a_negative_count_is_corrupt() {
    let mut bytes = 8i64.to_le_bytes().to_vec();
    bytes.extend_from_slice(&i32s(&[-1]));
    assert_eq!(
        table_reader(bytes, 0).err(),
        Some(Error::InvalidFile(InvalidFileError::CorruptNameTable))
    );
}

#[test]
fn name_table_entry_must_not_be_null() {
    let mut bytes = 8i64.to_le_bytes().to_vec();
    bytes.extend_from_slice(&i32s(&[2]));
    bytes.extend_from_slice(&text("Zero"));
    bytes.extend_from_slice(&i32s(&[0]));
    assert_eq!(
        table_reader(bytes, 0).err(),
        Some(Error::InvalidFile(InvalidFileError::MissingName(1)))
    );
}

#[test]
fn a_registry_that_was_read_is_read_again_after_writing() {
    // a file that no writer produces: the section of the nodes is longer
    // than its nodes, and negative counts announce nothing
    let mut bytes = two_nodes(0);
    let slot = 4 + 8 + 4;
    let size = i64::from_le_bytes(bytes[slot..slot + 8].try_into().unwrap());
    bytes[slot..slot + 8].copy_from_slice(&(size + 4).to_le_bytes());
    let end = slot + 8 + size as usize;
    bytes.splice(end..end, [0xEE, 0xEE, 0xEE, 0xEE]);
    let offset = i64::from_le_bytes(bytes[4..12].try_into().unwrap());
    bytes[4..12].copy_from_slice(&(offset + 4).to_le_bytes());
    bytes[12..16].copy_from_slice(&(-3i32).to_le_bytes());
    let first = read(bytes.clone(), 0).unwrap();
    let written = write(&first).unwrap();
    assert_ne!(written, bytes);
    assert_eq!(written, two_nodes(0));
    let again = read(written.clone(), 0).unwrap();
    assert_eq!(again.assets_data, first.assets_data);
    assert_eq!(again.depends_nodes, first.depends_nodes);
    assert_eq!(again.package_data, first.package_data);
    assert_eq!(again.get_version(), first.get_version());
    assert_eq!(write(&again), Ok(written));
}
