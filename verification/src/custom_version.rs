//! Version schemes: the versions of the registry, and the custom versions
//! by which parts of the engine version their data.

use crate::error::{Error, InvalidFileError};
use crate::le::{enc_i32, lemma_enc_dec};
use crate::reader::asset_reader::AssetReader;
use crate::reader::asset_trait::{CustomVersion, CustomVersionView};
use crate::reader::asset_writer::AssetWriter;
use crate::stream::{
    emitted, has_at, lemma_emit, lemma_has_at_concat, parse_i32, take, wrote, yields, yields_deep,
    Parsed,
};
use crate::unreal_types::{guid_from_bytes, Guid};
use vstd::prelude::*;

verus! {

/// The version of an asset registry. A later version has a larger ordinal.
#[derive(Clone, Copy, Debug, PartialEq, Eq, PartialOrd, Ord, Hash, Structural)]
pub enum FAssetRegistryVersionType {
    /// The registry before it carried a version.
    PreVersioning,
    /// Dependencies are hard or soft.
    HardSoftDependencies,
    /// The state of the registry is stored.
    AddAssetRegistryState,
    /// The data of an asset changed.
    ChangedAssetData,
    /// The MD5 hash of a package was removed.
    RemovedMD5Hash,
    /// Hard manage references were added.
    AddedHardManage,
    /// The MD5 hash of the cooked package was added.
    AddedCookedMD5Hash,
    /// Dependencies carry flags.
    AddedDependencyFlags,
    /// Tags are stored in place; there is no name table any more.
    FixedTags,
    /// The workspace domain was added: a package carries its versions.
    WorkspaceDomain,
    /// A package lists the classes that it imports.
    PackageImportedClasses,
    /// A package carries a second file version.
    PackageFileSummaryVersionChange,
}

impl FAssetRegistryVersionType {
    /// The ordinal of the version, which stands for it on disk.
    pub open spec fn ord(self) -> i32 {
        match self {
            FAssetRegistryVersionType::PreVersioning => 0,
            FAssetRegistryVersionType::HardSoftDependencies => 1,
            FAssetRegistryVersionType::AddAssetRegistryState => 2,
            FAssetRegistryVersionType::ChangedAssetData => 3,
            FAssetRegistryVersionType::RemovedMD5Hash => 4,
            FAssetRegistryVersionType::AddedHardManage => 5,
            FAssetRegistryVersionType::AddedCookedMD5Hash => 6,
            FAssetRegistryVersionType::AddedDependencyFlags => 7,
            FAssetRegistryVersionType::FixedTags => 8,
            FAssetRegistryVersionType::WorkspaceDomain => 9,
            FAssetRegistryVersionType::PackageImportedClasses => 10,
            FAssetRegistryVersionType::PackageFileSummaryVersionChange => 11,
        }
    }

    /// The version with the given ordinal, if there is one.
    pub open spec fn of_ord(n: i32) -> Option<FAssetRegistryVersionType> {
        if n == 0 {
            Some(FAssetRegistryVersionType::PreVersioning)
        } else if n == 1 {
            Some(FAssetRegistryVersionType::HardSoftDependencies)
        } else if n == 2 {
            Some(FAssetRegistryVersionType::AddAssetRegistryState)
        } else if n == 3 {
            Some(FAssetRegistryVersionType::ChangedAssetData)
        } else if n == 4 {
            Some(FAssetRegistryVersionType::RemovedMD5Hash)
        } else if n == 5 {
            Some(FAssetRegistryVersionType::AddedHardManage)
        } else if n == 6 {
            Some(FAssetRegistryVersionType::AddedCookedMD5Hash)
        } else if n == 7 {
            Some(FAssetRegistryVersionType::AddedDependencyFlags)
        } else if n == 8 {
            Some(FAssetRegistryVersionType::FixedTags)
        } else if n == 9 {
            Some(FAssetRegistryVersionType::WorkspaceDomain)
        } else if n == 10 {
            Some(FAssetRegistryVersionType::PackageImportedClasses)
        } else if n == 11 {
            Some(FAssetRegistryVersionType::PackageFileSummaryVersionChange)
        } else {
            None
        }
    }

    /// The ordinal of the version.
    pub fn ordinal(self) -> (n: i32)
        ensures
            n == self.ord(),
            FAssetRegistryVersionType::of_ord(n) == Some(self),
    {
        match self {
            FAssetRegistryVersionType::PreVersioning => 0,
            FAssetRegistryVersionType::HardSoftDependencies => 1,
            FAssetRegistryVersionType::AddAssetRegistryState => 2,
            FAssetRegistryVersionType::ChangedAssetData => 3,
            FAssetRegistryVersionType::RemovedMD5Hash => 4,
            FAssetRegistryVersionType::AddedHardManage => 5,
            FAssetRegistryVersionType::AddedCookedMD5Hash => 6,
            FAssetRegistryVersionType::AddedDependencyFlags => 7,
            FAssetRegistryVersionType::FixedTags => 8,
            FAssetRegistryVersionType::WorkspaceDomain => 9,
            FAssetRegistryVersionType::PackageImportedClasses => 10,
            FAssetRegistryVersionType::PackageFileSummaryVersionChange => 11,
        }
    }

    /// The version with the given ordinal, if there is one.
    pub fn from_ordinal(n: i32) -> (v: Option<FAssetRegistryVersionType>)
        ensures
            v == FAssetRegistryVersionType::of_ord(n),
    {
        match n {
            0 => Some(FAssetRegistryVersionType::PreVersioning),
            1 => Some(FAssetRegistryVersionType::HardSoftDependencies),
            2 => Some(FAssetRegistryVersionType::AddAssetRegistryState),
            3 => Some(FAssetRegistryVersionType::ChangedAssetData),
            4 => Some(FAssetRegistryVersionType::RemovedMD5Hash),
            5 => Some(FAssetRegistryVersionType::AddedHardManage),
            6 => Some(FAssetRegistryVersionType::AddedCookedMD5Hash),
            7 => Some(FAssetRegistryVersionType::AddedDependencyFlags),
            8 => Some(FAssetRegistryVersionType::FixedTags),
            9 => Some(FAssetRegistryVersionType::WorkspaceDomain),
            10 => Some(FAssetRegistryVersionType::PackageImportedClasses),
            11 => Some(FAssetRegistryVersionType::PackageFileSummaryVersionChange),
            _ => None,
        }
    }

    /// Whether this version is older than `other`.
    pub fn before(self, other: FAssetRegistryVersionType) -> (b: bool)
        ensures
            b == (self.ord() < other.ord()),
    {
        self.ordinal() < other.ordinal()
    }

    /// Whether this version is `other` or a later one.
    pub fn at_least(self, other: FAssetRegistryVersionType) -> (b: bool)
        ensures
            b == (self.ord() >= other.ord()),
    {
        self.ordinal() >= other.ordinal()
    }

    /// Reads the version of a registry: its ordinal as a 32-bit integer.
    /// An ordinal that names no version is refused.
    pub fn new<Reader: AssetReader>(asset: &mut Reader) -> (r: Result<
        FAssetRegistryVersionType,
        Error,
    >)
        ensures
            final(asset).bytes() == old(asset).bytes(),
            final(asset).env() == old(asset).env(),
            yields(
                r,
                final(asset).pos(),
                parse_registry_version(old(asset).bytes(), old(asset).pos()),
            ),
    {
        let n = match asset.read_i32() {
            Ok(n) => n,
            Err(e) => return Err(e),
        };
        match FAssetRegistryVersionType::from_ordinal(n) {
            Some(v) => Ok(v),
            None => Err(Error::InvalidFile(InvalidFileError::UnknownRegistryVersion(n))),
        }
    }

    /// Writes the version of a registry: its ordinal as a 32-bit integer.
    pub fn write<Writer: AssetWriter>(&self, writer: &mut Writer) -> (r: Result<(), Error>)
        ensures
            final(writer).env() == old(writer).env(),
            wrote(
                r,
                old(writer).bytes(),
                old(writer).pos(),
                final(writer).bytes(),
                final(writer).pos(),
                enc_i32(self.ord()),
            ),
    {
        writer.write_i32(self.ordinal())
    }
}

/// The version of a registry at `pos`.
pub open spec fn parse_registry_version(bytes: Seq<u8>, pos: u64) -> Parsed<
    FAssetRegistryVersionType,
> {
    match parse_i32(bytes, pos) {
        Err(e) => Err(e),
        Ok((n, p)) => match FAssetRegistryVersionType::of_ord(n) {
            Some(v) => Ok((v, p)),
            None => Err(Error::InvalidFile(InvalidFileError::UnknownRegistryVersion(n))),
        },
    }
}

/// The identifier of the version scheme of core objects.
pub open spec fn core_object_guid() -> Seq<u8> {
    seq![
        0x3Cu8, 0xC1u8, 0x5Eu8, 0x37u8, 0xFBu8, 0x48u8, 0xE4u8, 0x06u8, 0xF0u8, 0x84u8, 0x00u8,
        0xB5u8, 0x7Eu8, 0x71u8, 0x2Au8, 0x26u8,
    ]
}

/// The identifier of the version scheme of framework objects.
pub open spec fn framework_object_guid() -> Seq<u8> {
    seq![
        0x3Fu8, 0x74u8, 0xFCu8, 0xCFu8, 0x80u8, 0x44u8, 0xB0u8, 0x43u8, 0xDFu8, 0x14u8, 0x91u8,
        0x93u8, 0x73u8, 0x20u8, 0x1Du8, 0x17u8,
    ]
}

/// The version scheme of core objects.
pub struct FCoreObjectVersion {}

impl FCoreObjectVersion {
    /// From this version on, a struct export lists the descriptors of its
    /// properties.
    pub const F_PROPERTIES: i32 = 4;

    /// The identifier of the scheme.
    pub fn guid() -> (g: Guid)
        ensures
            g@ == core_object_guid(),
    {
        let g: Guid = [
            0x3C, 0xC1, 0x5E, 0x37, 0xFB, 0x48, 0xE4, 0x06, 0xF0, 0x84, 0x00, 0xB5, 0x7E, 0x71,
            0x2A, 0x26,
        ];
        assert(g@ =~= core_object_guid());
        g
    }
}

/// The version scheme of framework objects.
pub struct FFrameworkObjectVersion {}

impl FFrameworkObjectVersion {
    /// From this version on, a field no longer stores the link to the
    /// field that follows it.
    pub const REMOVE_UFIELD_NEXT: i32 = 29;

    /// The identifier of the scheme.
    pub fn guid() -> (g: Guid)
        ensures
            g@ == framework_object_guid(),
    {
        let g: Guid = [
            0x3F, 0x74, 0xFC, 0xCF, 0x80, 0x44, 0xB0, 0x43, 0xDF, 0x14, 0x91, 0x93, 0x73, 0x20,
            0x1D, 0x17,
        ];
        assert(g@ =~= framework_object_guid());
        g
    }
}

/// The custom version at `pos`: sixteen bytes of identifier and the version.
pub open spec fn parse_custom_version(bytes: Seq<u8>, pos: u64) -> Parsed<CustomVersionView> {
    match take(bytes, pos, 16) {
        Err(e) => Err(e),
        Ok((guid, p)) => match parse_i32(bytes, p) {
            Err(e) => Err(e),
            Ok((version, q)) => Ok((CustomVersionView { guid, version }, q)),
        },
    }
}

/// The bytes of a custom version on disk.
pub open spec fn ser_custom_version(v: CustomVersionView) -> Seq<u8> {
    v.guid + enc_i32(v.version)
}

impl CustomVersion {
    /// Reads a custom version.
    pub fn read<Reader: AssetReader>(asset: &mut Reader) -> (r: Result<CustomVersion, Error>)
        ensures
            final(asset).bytes() == old(asset).bytes(),
            final(asset).env() == old(asset).env(),
            yields_deep(
                r,
                final(asset).pos(),
                parse_custom_version(old(asset).bytes(), old(asset).pos()),
            ),
    {
        let raw = match asset.read_exact(16) {
            Ok(raw) => raw,
            Err(e) => return Err(e),
        };
        let version = match asset.read_i32() {
            Ok(version) => version,
            Err(e) => return Err(e),
        };
        Ok(CustomVersion::new(guid_from_bytes(&raw), version))
    }

    /// Writes a custom version.
    pub fn write<Writer: AssetWriter>(&self, asset: &mut Writer) -> (r: Result<(), Error>)
        ensures
            final(asset).env() == old(asset).env(),
            emitted(
                r,
                (),
                old(asset).bytes(),
                old(asset).pos(),
                final(asset).bytes(),
                final(asset).pos(),
                ser_custom_version(self.deep_view()),
            ),
    {
        let ghost origin = asset.bytes();
        let ghost start = asset.pos();
        let ghost none = Seq::<u8>::empty();
        let one = asset.write_all(self.guid.as_slice());
        proof {
            lemma_emit(
                one,
                origin,
                start,
                none,
                self.guid@,
                origin,
                start,
                asset.bytes(),
                asset.pos(),
            );
            assert(none + self.guid@ =~= self.guid@);
        }
        if let Err(e) = one {
            return Err(e);
        }
        let ghost b = asset.bytes();
        let ghost p = asset.pos();
        let two = asset.write_i32(self.version);
        proof {
            lemma_emit(
                two,
                origin,
                start,
                self.guid@,
                enc_i32(self.version),
                b,
                p,
                asset.bytes(),
                asset.pos(),
            );
        }
        two
    }
}

/// A custom version that was written is read back.
pub proof fn lemma_custom_version_round_trip(bytes: Seq<u8>, pos: u64, v: CustomVersionView)
    requires
        bytes.len() <= u64::MAX,
        v.guid.len() == 16,
        has_at(bytes, pos as int, ser_custom_version(v)),
    ensures
        parse_custom_version(bytes, pos) == Ok::<(CustomVersionView, u64), Error>(
            (v, (pos + 20) as u64),
        ),
{
    lemma_enc_dec();
    lemma_has_at_concat(bytes, pos as int, v.guid, enc_i32(v.version));
}

} // verus!
