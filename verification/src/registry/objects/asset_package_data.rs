//! The data of one package.

use crate::custom_version::{
    lemma_custom_version_round_trip, parse_custom_version, ser_custom_version,
    FAssetRegistryVersionType,
};
use crate::error::{Error, RegistryError, RegistryField};
use crate::le::{enc_i32, enc_i64, enc_u32, lemma_enc_dec};
use crate::reader::asset_reader::AssetReader;
use crate::reader::asset_trait::{
    agreed, lemma_fname_read_is_kept_by, lemma_fname_round_trip, name_kept, paired, parse_fname,
    ser_fname, table_kept, CustomVersion, CustomVersionView, Env,
};
use crate::reader::asset_writer::AssetWriter;
use crate::reader::lists::{counted, fname_reader, fname_writer, parse_array, write_fname_list};
use crate::registry::objects::md5_hash::{lemma_md5_round_trip, parse_md5, ser_md5, FMD5Hash};
use crate::stream::{
    emitted_checked, fits, has_at, lemma_emit, lemma_emit_part, lemma_from_round_trip,
    lemma_has_at_concat, lemma_parse_from_each, lemma_ser_from_extends, lemma_ser_from_total,
    parse_i32, parse_i64, parse_many, parse_u32, ser_all, ser_from, take, write_at, yields_deep,
    Parsed,
};
use crate::unreal_types::{guid_from_bytes, FName, FNameView, Guid};
use vstd::prelude::*;

verus! {

/// The data of one package. Which of its optional parts are stored
/// depends on the version of the registry.
#[derive(Clone, Debug, PartialEq, Eq, Hash)]
pub struct AssetPackageData {
    pub package_name: FName,
    pub package_guid: Guid,
    /// The hash of the cooked package, from [`FAssetRegistryVersionType::AddedCookedMD5Hash`] on.
    pub cooked_hash: Option<FMD5Hash>,
    /// The classes that the package imports, from
    /// [`FAssetRegistryVersionType::PackageImportedClasses`] on.
    pub imported_classes: Option<Vec<FName>>,
    pub disk_size: i64,
    /// Stored from [`FAssetRegistryVersionType::WorkspaceDomain`] on; zero before.
    pub file_version: i32,
    /// The second file version, from
    /// [`FAssetRegistryVersionType::PackageFileSummaryVersionChange`] on.
    pub ue5_version: Option<i32>,
    /// Stored from [`FAssetRegistryVersionType::WorkspaceDomain`] on; minus one before.
    pub file_version_licensee_ue: i32,
    /// The custom versions of the package, from
    /// [`FAssetRegistryVersionType::WorkspaceDomain`] on.
    pub custom_versions: Option<Vec<CustomVersion>>,
    /// Stored from [`FAssetRegistryVersionType::WorkspaceDomain`] on; zero before.
    pub flags: u32,
    /// The version of the registry that the data belongs to.
    pub version: FAssetRegistryVersionType,
}

/// What an [`AssetPackageData`] stands for.
pub struct AssetPackageDataView {
    pub package_name: FNameView,
    pub package_guid: Seq<u8>,
    pub cooked_hash: Option<Option<Seq<u8>>>,
    pub imported_classes: Option<Seq<FNameView>>,
    pub disk_size: i64,
    pub file_version: i32,
    pub ue5_version: Option<i32>,
    pub file_version_licensee_ue: i32,
    pub custom_versions: Option<Seq<CustomVersionView>>,
    pub flags: u32,
    pub version: FAssetRegistryVersionType,
}

impl DeepView for AssetPackageData {
    type V = AssetPackageDataView;

    open spec fn deep_view(&self) -> AssetPackageDataView {
        AssetPackageDataView {
            package_name: self.package_name.deep_view(),
            package_guid: self.package_guid@,
            cooked_hash: self.cooked_hash.deep_view(),
            imported_classes: self.imported_classes.deep_view(),
            disk_size: self.disk_size,
            file_version: self.file_version,
            ue5_version: self.ue5_version,
            file_version_licensee_ue: self.file_version_licensee_ue,
            custom_versions: self.custom_versions.deep_view(),
            flags: self.flags,
            version: self.version,
        }
    }
}

/// Whether the hash of the cooked package is stored at `version`.
pub open spec fn stores_cooked_hash(version: FAssetRegistryVersionType) -> bool {
    version.ord() >= FAssetRegistryVersionType::AddedCookedMD5Hash.ord()
}

/// Whether the versions of the package are stored at `version`.
pub open spec fn stores_versions(version: FAssetRegistryVersionType) -> bool {
    version.ord() >= FAssetRegistryVersionType::WorkspaceDomain.ord()
}

/// Whether the second file version is stored at `version`.
pub open spec fn stores_ue5_version(version: FAssetRegistryVersionType) -> bool {
    version.ord() >= FAssetRegistryVersionType::PackageFileSummaryVersionChange.ord()
}

/// Whether the imported classes are stored at `version`.
pub open spec fn stores_imported_classes(version: FAssetRegistryVersionType) -> bool {
    version.ord() >= FAssetRegistryVersionType::PackageImportedClasses.ord()
}

/// Reading one custom version, as a function of the position.
pub open spec fn custom_version_reader(
    bytes: Seq<u8>,
) -> spec_fn(u64) -> Parsed<CustomVersionView> {
    |p: u64| parse_custom_version(bytes, p)
}

/// Writing one custom version, as a function of the custom version.
pub open spec fn custom_version_writer() -> spec_fn(CustomVersionView) -> Result<Seq<u8>, Error> {
    |v: CustomVersionView| Ok::<Seq<u8>, Error>(ser_custom_version(v))
}

/// The hash of the cooked package at `pos`, where it is stored.
pub open spec fn parse_cooked_hash(
    bytes: Seq<u8>,
    pos: u64,
    version: FAssetRegistryVersionType,
) -> Parsed<Option<Option<Seq<u8>>>> {
    if stores_cooked_hash(version) {
        match parse_md5(bytes, pos) {
            Err(e) => Err(e),
            Ok((hash, p)) => Ok((Some(hash), p)),
        }
    } else {
        Ok((None, pos))
    }
}

/// The versions of a package.
pub struct PackageVersions {
    pub file_version: i32,
    pub ue5_version: Option<i32>,
    pub file_version_licensee_ue: i32,
    pub flags: u32,
    pub custom_versions: Option<Seq<CustomVersionView>>,
}

/// The second file version at `pos`, where it is stored.
pub open spec fn parse_ue5_version(
    bytes: Seq<u8>,
    pos: u64,
    version: FAssetRegistryVersionType,
) -> Parsed<Option<i32>> {
    if stores_ue5_version(version) {
        match parse_i32(bytes, pos) {
            Err(e) => Err(e),
            Ok((v, p)) => Ok((Some(v), p)),
        }
    } else {
        Ok((None, pos))
    }
}

/// The versions of a package at `pos`, where they are stored: the file
/// version, the second file version where it is stored, the licensee
/// version, the flags, and the counted custom versions. Where they are not
/// stored, the versions are zero, minus one for the licensee, and absent.
pub open spec fn parse_versions(
    bytes: Seq<u8>,
    pos: u64,
    version: FAssetRegistryVersionType,
) -> Parsed<PackageVersions> {
    if stores_versions(version) {
        match parse_i32(bytes, pos) {
            Err(e) => Err(e),
            Ok((file_version, p1)) =>
            match parse_ue5_version(bytes, p1, version) {
                Err(e) => Err(e),
                Ok((ue5_version, p2)) =>
                match parse_i32(bytes, p2) {
                    Err(e) => Err(e),
                    Ok((file_version_licensee_ue, p3)) =>
                    match parse_u32(bytes, p3) {
                        Err(e) => Err(e),
                        Ok((flags, p4)) =>
                        match parse_i32(bytes, p4) {
                            Err(e) => Err(e),
                            Ok((count, p5)) =>
                            match parse_many(custom_version_reader(bytes), p5, counted(count)) {
                                Err(e) => Err(e),
                                Ok((custom, p6)) =>
                                Ok((PackageVersions {
                                    file_version,
                                    ue5_version,
                                    file_version_licensee_ue,
                                    flags,
                                    custom_versions: Some(custom),
                                }, p6)),
                            },
                        },
                    },
                },
            },
        }
    } else {
        Ok(
            (
                PackageVersions {
                    file_version: 0,
                    ue5_version: None,
                    file_version_licensee_ue: -1i32,
                    flags: 0,
                    custom_versions: None,
                },
                pos,
            ),
        )
    }
}

/// The imported classes at `pos`, where they are stored: their number and
/// their names.
pub open spec fn parse_imported_classes(
    env: Env,
    bytes: Seq<u8>,
    pos: u64,
    version: FAssetRegistryVersionType,
) -> Parsed<Option<Seq<FNameView>>> {
    if stores_imported_classes(version) {
        match parse_i32(bytes, pos) {
            Err(e) => Err(e),
            Ok((count, p)) => match parse_many(fname_reader(env, bytes), p, counted(count)) {
                Err(e) => Err(e),
                Ok((classes, q)) => Ok((Some(classes), q)),
            },
        }
    } else {
        Ok((None, pos))
    }
}

/// The head of the data of a package.
pub struct PackageHead {
    pub package_name: FNameView,
    pub disk_size: i64,
    pub package_guid: Seq<u8>,
    pub cooked_hash: Option<Option<Seq<u8>>>,
}

/// The head of the data of a package at `pos`: the name, the size on
/// disk, sixteen bytes of identifier, and the hash of the cooked package
/// where it is stored.
pub open spec fn parse_package_head(
    env: Env,
    bytes: Seq<u8>,
    pos: u64,
    version: FAssetRegistryVersionType,
) -> Parsed<PackageHead> {
    match parse_fname(env, bytes, pos) {
        Err(e) => Err(e),
        Ok((package_name, p1)) =>
        match parse_i64(bytes, p1) {
            Err(e) => Err(e),
            Ok((disk_size, p2)) =>
            match take(bytes, p2, 16) {
                Err(e) => Err(e),
                Ok((package_guid, p3)) =>
                match parse_cooked_hash(bytes, p3, version) {
                    Err(e) => Err(e),
                    Ok((cooked_hash, p4)) =>
                    Ok((PackageHead { package_name, disk_size, package_guid, cooked_hash }, p4)),
                },
            },
        },
    }
}

/// The data of a package at `pos` in a registry of the given version: its
/// head, and the versions and imported classes that the version stores.
#[verifier::opaque]
pub open spec fn parse_package_data(
    env: Env,
    bytes: Seq<u8>,
    pos: u64,
    version: FAssetRegistryVersionType,
) -> Parsed<AssetPackageDataView> {
    match parse_package_head(env, bytes, pos, version) {
        Err(e) => Err(e),
        Ok((head, p1)) =>
        match parse_versions(bytes, p1, version) {
            Err(e) => Err(e),
            Ok((versions, p2)) =>
            match parse_imported_classes(env, bytes, p2, version) {
                Err(e) => Err(e),
                Ok((imported_classes, p3)) =>
                Ok((AssetPackageDataView {
                    package_name: head.package_name,
                    package_guid: head.package_guid,
                    cooked_hash: head.cooked_hash,
                    imported_classes,
                    disk_size: head.disk_size,
                    file_version: versions.file_version,
                    ue5_version: versions.ue5_version,
                    file_version_licensee_ue: versions.file_version_licensee_ue,
                    custom_versions: versions.custom_versions,
                    flags: versions.flags,
                    version,
                }, p3)),
            },
        },
    }
}

/// The error of a part that the version stores and the data lacks.
pub open spec fn missing(field: RegistryField, version: FAssetRegistryVersionType) -> Error {
    Error::Registry(RegistryError::Version(field, version.ord()))
}

/// The bytes of the name, the size and the identifier of a package, and
/// of the hash of the cooked package where it is stored.
pub open spec fn ser_package_head(env: Env, v: AssetPackageDataView) -> Result<Seq<u8>, Error> {
    match ser_fname(env, v.package_name) {
        Err(e) => Err(e),
        Ok(name) => if stores_cooked_hash(v.version) {
            match v.cooked_hash {
                None => Err(missing(RegistryField::CookedHash, v.version)),
                Some(hash) => Ok(name + enc_i64(v.disk_size) + v.package_guid + ser_md5(hash)),
            }
        } else {
            Ok(name + enc_i64(v.disk_size) + v.package_guid)
        },
    }
}

/// The bytes of the second file version, where it is stored.
pub open spec fn ser_ue5_version(v: AssetPackageDataView) -> Result<Seq<u8>, Error> {
    if stores_ue5_version(v.version) {
        match v.ue5_version {
            None => Err(missing(RegistryField::Ue5Version, v.version)),
            Some(ue5) => Ok(enc_i32(ue5)),
        }
    } else {
        Ok(Seq::<u8>::empty())
    }
}

/// The bytes of the custom versions of a package: their number and they.
pub open spec fn ser_custom_versions(v: AssetPackageDataView) -> Result<Seq<u8>, Error> {
    match v.custom_versions {
        None => Err(missing(RegistryField::CustomVersions, v.version)),
        Some(custom) => match ser_all(custom_version_writer(), custom) {
            Err(e) => Err(e),
            Ok(list) => Ok(enc_i32(custom.len() as i32) + list),
        },
    }
}

/// The bytes of the versions of a package, where they are stored.
pub open spec fn ser_versions(v: AssetPackageDataView) -> Result<Seq<u8>, Error> {
    if stores_versions(v.version) {
        match ser_ue5_version(v) {
            Err(e) => Err(e),
            Ok(ue5) => match ser_custom_versions(v) {
                Err(e) => Err(e),
                Ok(custom) => Ok(
                    enc_i32(v.file_version) + ue5 + enc_i32(v.file_version_licensee_ue) + enc_u32(
                        v.flags,
                    ) + custom,
                ),
            },
        }
    } else {
        Ok(Seq::<u8>::empty())
    }
}

/// The bytes of the imported classes of a package, where they are stored:
/// their number and their names.
pub open spec fn ser_imported_classes(env: Env, v: AssetPackageDataView) -> Result<Seq<u8>, Error> {
    if stores_imported_classes(v.version) {
        match v.imported_classes {
            None => Err(missing(RegistryField::ImportedClasses, v.version)),
            Some(classes) => match ser_all(fname_writer(env), classes) {
                Err(e) => Err(e),
                Ok(list) => Ok(enc_i32(classes.len() as i32) + list),
            },
        }
    } else {
        Ok(Seq::<u8>::empty())
    }
}

/// The bytes of the data of a package on disk. Data that lacks a part
/// which its version stores cannot be written.
#[verifier::opaque]
pub open spec fn ser_package_data(env: Env, v: AssetPackageDataView) -> Result<Seq<u8>, Error> {
    match ser_package_head(env, v) {
        Err(e) => Err(e),
        Ok(head) => match ser_versions(v) {
            Err(e) => Err(e),
            Ok(versions) => match ser_imported_classes(env, v) {
                Err(e) => Err(e),
                Ok(classes) => Ok(head + versions + classes),
            },
        },
    }
}

/// Every part of the data of a package that was read is present exactly
/// where the version of the registry stores it.
pub proof fn lemma_version_gating(
    env: Env,
    bytes: Seq<u8>,
    pos: u64,
    version: FAssetRegistryVersionType,
)
    ensures
        parse_package_data(env, bytes, pos, version) matches Ok((v, _)) ==> {
            &&& v.version == version
            &&& v.cooked_hash is Some <==> stores_cooked_hash(version)
            &&& v.custom_versions is Some <==> stores_versions(version)
            &&& v.ue5_version is Some <==> stores_ue5_version(version)
            &&& v.imported_classes is Some <==> stores_imported_classes(version)
        },
{
    reveal(parse_package_data);
}

/// Whether the data of a package is read back as it was written: its
/// names are, its identifiers and hash have sixteen bytes, the numbers of
/// its custom versions and classes fit the stored counts, it holds the
/// optional parts exactly where its version stores them, and its versions
/// are zero, minus one and zero where they are not stored.
pub open spec fn package_data_kept(reading: Env, writing: Env, v: AssetPackageDataView) -> bool {
    &&& name_kept(reading, writing, v.package_name)
    &&& v.package_guid.len() == 16
    &&& v.cooked_hash is Some <==> stores_cooked_hash(v.version)
    &&& v.cooked_hash matches Some(Some(raw)) ==> raw.len() == 16
    &&& v.custom_versions is Some <==> stores_versions(v.version)
    &&& v.custom_versions matches Some(custom) ==> custom.len() <= i32::MAX && forall|k: int|
        0 <= k < custom.len() ==> (#[trigger] custom[k]).guid.len() == 16
    &&& v.ue5_version is Some <==> stores_ue5_version(v.version)
    &&& !stores_versions(v.version) ==> v.file_version == 0 && v.file_version_licensee_ue == -1
        && v.flags == 0
    &&& v.imported_classes is Some <==> stores_imported_classes(v.version)
    &&& v.imported_classes matches Some(classes) ==> classes.len() <= i32::MAX && forall|k: int|
        0 <= k < classes.len() ==> name_kept(reading, writing, #[trigger] classes[k])
}

/// The head of the data of a package that was written is read back: the
/// name, the size, the identifier, and the hash of the cooked package.
proof fn lemma_package_head_round_trip(
    reading: Env,
    writing: Env,
    bytes: Seq<u8>,
    pos: u64,
    v: AssetPackageDataView,
)
    requires
        paired(reading, writing),
        bytes.len() <= u64::MAX,
        ser_package_head(writing, v) is Ok,
        has_at(bytes, pos as int, ser_package_head(writing, v)->Ok_0),
        package_data_kept(reading, writing, v),
    ensures
        parse_package_head(reading, bytes, pos, v.version) == Ok::<(PackageHead, u64), Error>(
            (
                PackageHead {
                    package_name: v.package_name,
                    disk_size: v.disk_size,
                    package_guid: v.package_guid,
                    cooked_hash: v.cooked_hash,
                },
                (pos + ser_package_head(writing, v)->Ok_0.len()) as u64,
            ),
        ),
{
    lemma_enc_dec();
    let c1 = ser_fname(writing, v.package_name)->Ok_0;
    let c2 = enc_i64(v.disk_size);
    let c3 = v.package_guid;
    if stores_cooked_hash(v.version) {
        let c4 = ser_md5(v.cooked_hash->Some_0);
        lemma_has_at_concat(bytes, pos as int, c1 + c2 + c3, c4);
        lemma_has_at_concat(bytes, pos as int, c1 + c2, c3);
        lemma_has_at_concat(bytes, pos as int, c1, c2);
        lemma_md5_round_trip(bytes, (pos + c1.len() + 24) as u64, v.cooked_hash->Some_0);
    } else {
        lemma_has_at_concat(bytes, pos as int, c1 + c2, c3);
        lemma_has_at_concat(bytes, pos as int, c1, c2);
    }
    lemma_fname_round_trip(reading, writing, bytes, pos, v.package_name);
}

/// The versions of a package that were written are read back.
#[verifier::rlimit(60)]
proof fn lemma_versions_round_trip(bytes: Seq<u8>, pos: u64, v: AssetPackageDataView)
    requires
        bytes.len() <= u64::MAX,
        ser_versions(v) is Ok,
        has_at(bytes, pos as int, ser_versions(v)->Ok_0),
        v.custom_versions is Some <==> stores_versions(v.version),
        v.custom_versions matches Some(custom) ==> custom.len() <= i32::MAX && forall|k: int|
            0 <= k < custom.len() ==> (#[trigger] custom[k]).guid.len() == 16,
        v.ue5_version is Some <==> stores_ue5_version(v.version),
        !stores_versions(v.version) ==> v.file_version == 0 && v.file_version_licensee_ue == -1
            && v.flags == 0,
    ensures
        parse_versions(bytes, pos, v.version) == Ok::<(PackageVersions, u64), Error>(
            (
                PackageVersions {
                    file_version: v.file_version,
                    ue5_version: v.ue5_version,
                    file_version_licensee_ue: v.file_version_licensee_ue,
                    flags: v.flags,
                    custom_versions: v.custom_versions,
                },
                (pos + ser_versions(v)->Ok_0.len()) as u64,
            ),
        ),
{
    lemma_enc_dec();
    if stores_versions(v.version) {
        let custom = v.custom_versions->Some_0;
        let f = custom_version_reader(bytes);
        let g = custom_version_writer();
        let c1 = enc_i32(v.file_version);
        let c2 = ser_ue5_version(v)->Ok_0;
        let c3 = enc_i32(v.file_version_licensee_ue);
        let c4 = enc_u32(v.flags);
        let c5 = enc_i32(custom.len() as i32);
        let c6 = ser_all(g, custom)->Ok_0;
        assert(ser_versions(v)->Ok_0 =~= c1 + c2 + c3 + c4 + c5 + c6);
        lemma_has_at_concat(bytes, pos as int, c1 + c2 + c3 + c4 + c5, c6);
        lemma_has_at_concat(bytes, pos as int, c1 + c2 + c3 + c4, c5);
        lemma_has_at_concat(bytes, pos as int, c1 + c2 + c3, c4);
        lemma_has_at_concat(bytes, pos as int, c1 + c2, c3);
        lemma_has_at_concat(bytes, pos as int, c1, c2);
        let p5 = (pos + c1.len() + c2.len() + 12) as u64;
        assert forall|k: int, p: u64|
            #![trigger g(custom[k]), f(p)]
            0 <= k < custom.len() && g(custom[k]) is Ok && has_at(
                bytes,
                p as int,
                g(custom[k])->Ok_0,
            ) implies f(p) == Ok::<(CustomVersionView, u64), Error>(
            (custom[k], (p + g(custom[k])->Ok_0.len()) as u64),
        ) by {
            assert(custom[k].guid.len() == 16);
            lemma_custom_version_round_trip(bytes, p, custom[k]);
        }
        lemma_from_round_trip(f, g, bytes, p5, custom, 0, Seq::empty());
        assert(Seq::<CustomVersionView>::empty() + custom.subrange(0, custom.len() as int)
            =~= custom);
    }
}

/// The imported classes of a package that were written are read back.
proof fn lemma_imported_classes_round_trip(
    reading: Env,
    writing: Env,
    bytes: Seq<u8>,
    pos: u64,
    v: AssetPackageDataView,
)
    requires
        paired(reading, writing),
        bytes.len() <= u64::MAX,
        ser_imported_classes(writing, v) is Ok,
        has_at(bytes, pos as int, ser_imported_classes(writing, v)->Ok_0),
        package_data_kept(reading, writing, v),
    ensures
        parse_imported_classes(reading, bytes, pos, v.version) == Ok::<
            (Option<Seq<FNameView>>, u64),
            Error,
        >((v.imported_classes, (pos + ser_imported_classes(writing, v)->Ok_0.len()) as u64)),
{
    lemma_enc_dec();
    if stores_imported_classes(v.version) {
        let classes = v.imported_classes->Some_0;
        let f = fname_reader(reading, bytes);
        let g = fname_writer(writing);
        let c1 = enc_i32(classes.len() as i32);
        let c2 = ser_all(g, classes)->Ok_0;
        lemma_has_at_concat(bytes, pos as int, c1, c2);
        assert forall|k: int, p: u64|
            #![trigger g(classes[k]), f(p)]
            0 <= k < classes.len() && g(classes[k]) is Ok && has_at(
                bytes,
                p as int,
                g(classes[k])->Ok_0,
            ) implies f(p) == Ok::<(FNameView, u64), Error>(
            (classes[k], (p + g(classes[k])->Ok_0.len()) as u64),
        ) by {
            assert(name_kept(reading, writing, classes[k]));
            lemma_fname_round_trip(reading, writing, bytes, p, classes[k]);
        }
        lemma_from_round_trip(f, g, bytes, (pos + 4) as u64, classes, 0, Seq::empty());
        assert(Seq::<FNameView>::empty() + classes.subrange(0, classes.len() as int)
            =~= classes);
    }
}

/// The data of a package that was written is read back at its version.
#[verifier::rlimit(60)]
pub proof fn lemma_package_data_round_trip(
    reading: Env,
    writing: Env,
    bytes: Seq<u8>,
    pos: u64,
    v: AssetPackageDataView,
)
    requires
        paired(reading, writing),
        bytes.len() <= u64::MAX,
        ser_package_data(writing, v) is Ok,
        has_at(bytes, pos as int, ser_package_data(writing, v)->Ok_0),
        package_data_kept(reading, writing, v),
    ensures
        parse_package_data(
            reading,
            bytes,
            pos,
            v.version,
        ) == Ok::<(AssetPackageDataView, u64), Error>(
            (v, (pos + ser_package_data(writing, v)->Ok_0.len()) as u64),
        ),
{
    reveal(parse_package_data);
    reveal(ser_package_data);
    let c1 = ser_package_head(writing, v)->Ok_0;
    let c2 = ser_versions(v)->Ok_0;
    let c3 = ser_imported_classes(writing, v)->Ok_0;
    lemma_has_at_concat(bytes, pos as int, c1 + c2, c3);
    lemma_has_at_concat(bytes, pos as int, c1, c2);
    lemma_package_head_round_trip(reading, writing, bytes, pos, v);
    let p1 = (pos + c1.len()) as u64;
    lemma_versions_round_trip(bytes, p1, v);
    let p2 = (p1 + c2.len()) as u64;
    lemma_imported_classes_round_trip(reading, writing, bytes, p2, v);
}

/// The data of a package can be written only where it holds every part
/// that its version stores.
pub proof fn lemma_written_parts_present(env: Env, v: AssetPackageDataView)
    ensures
        ser_package_data(env, v) is Ok ==> {
            &&& stores_cooked_hash(v.version) ==> v.cooked_hash is Some
            &&& stores_versions(v.version) ==> v.custom_versions is Some
            &&& stores_ue5_version(v.version) && stores_versions(v.version) ==> v.ue5_version
                is Some
            &&& stores_imported_classes(v.version) ==> v.imported_classes is Some
        },
{
    reveal(ser_package_data);
}

/// Reads a count and as many custom versions.
fn read_custom_versions<Reader: AssetReader>(asset: &mut Reader) -> (r: Result<
    Vec<CustomVersion>,
    Error,
>)
    ensures
        final(asset).bytes() == old(asset).bytes(),
        final(asset).env() == old(asset).env(),
        yields_deep(
            r,
            final(asset).pos(),
            parse_array(
                custom_version_reader(old(asset).bytes()),
                old(asset).bytes(),
                old(asset).pos(),
            ),
        ),
{
    let getter = |a: &mut Reader| -> (x: Result<CustomVersion, Error>)
        ensures
            final(a).bytes() == old(a).bytes(),
            final(a).env() == old(a).env(),
            yields_deep(x, final(a).pos(), parse_custom_version(old(a).bytes(), old(a).pos())),
        { CustomVersion::read(a) };
    asset.read_array(getter)
}

/// Reads a count and as many names of classes.
fn read_imported_classes<Reader: AssetReader>(asset: &mut Reader) -> (r: Result<
    Vec<FName>,
    Error,
>)
    ensures
        final(asset).bytes() == old(asset).bytes(),
        final(asset).env() == old(asset).env(),
        yields_deep(
            r,
            final(asset).pos(),
            parse_array(
                fname_reader(old(asset).env(), old(asset).bytes()),
                old(asset).bytes(),
                old(asset).pos(),
            ),
        ),
{
    let getter = |a: &mut Reader| -> (x: Result<FName, Error>)
        ensures
            final(a).bytes() == old(a).bytes(),
            final(a).env() == old(a).env(),
            yields_deep(x, final(a).pos(), parse_fname(old(a).env(), old(a).bytes(), old(a).pos())),
        { a.read_fname() };
    asset.read_array(getter)
}

/// Writes the custom versions of `items`.
#[verifier::loop_isolation(false)]
fn write_custom_versions<Writer: AssetWriter>(
    asset: &mut Writer,
    items: &Vec<CustomVersion>,
) -> (r: Result<(), Error>)
    ensures
        final(asset).env() == old(asset).env(),
        emitted_checked(
            r,
            (),
            old(asset).bytes(),
            old(asset).pos(),
            final(asset).bytes(),
            final(asset).pos(),
            ser_all(custom_version_writer(), items.deep_view()),
        ),
{
    let ghost env = asset.env();
    let ghost origin = asset.bytes();
    let ghost start = asset.pos();
    let ghost none = Seq::<u8>::empty();
    let ghost g = custom_version_writer();
    let ghost views = items.deep_view();
    let count = items.len();
    let ghost mut list = none;
    let mut i: usize = 0;
    proof {
        lemma_ser_from_extends(g, views, 0, none);
    }
    while i < count
        invariant
            i <= count,
            asset.env() == env,
            asset.bytes() == write_at(origin, start as int, list),
            asset.pos() == start + list.len(),
            fits(start, list.len()),
            ser_all(g, views) == ser_from(g, views, i as nat, list),
        decreases count - i,
    {
        let entry = &items[i];
        assert(views[i as int] == entry.deep_view());
        let ghost b = asset.bytes();
        let ghost p = asset.pos();
        let one = entry.write(asset);
        proof {
            match Ok::<Seq<u8>, Error>(ser_custom_version(entry.deep_view())) {
                Ok(chunk) => {
                    lemma_emit_part(
                        one,
                        (),
                        origin,
                        start,
                        list,
                        chunk,
                        b,
                        p,
                        asset.bytes(),
                        asset.pos(),
                    );
                    lemma_ser_from_extends(g, views, (i + 1) as nat, list + chunk);
                    if one is Ok {
                        list = list + chunk;
                    }
                },
                Err(e) => {},
            }
        }
        if let Err(e) = one {
            return Err(e);
        }
        i = i + 1;
    }
    Ok(())
}

impl AssetPackageData {
    /// The version of the registry that the data belongs to.
    pub fn get_version(&self) -> (v: FAssetRegistryVersionType)
        ensures
            v == self.version,
    {
        self.version
    }

    /// Reads the versions of a package, where they are stored.
    fn read_versions<Reader: AssetReader>(
        asset: &mut Reader,
        version: FAssetRegistryVersionType,
    ) -> (r: Result<(i32, Option<i32>, i32, u32, Option<Vec<CustomVersion>>), Error>)
        ensures
            final(asset).bytes() == old(asset).bytes(),
            final(asset).env() == old(asset).env(),
            match parse_versions(old(asset).bytes(), old(asset).pos(), version) {
                Ok((v, end)) => r matches Ok(found) && final(asset).pos() == end && found.0
                    == v.file_version && found.1 == v.ue5_version && found.2
                    == v.file_version_licensee_ue && found.3 == v.flags && found.4.deep_view()
                    == v.custom_versions,
                Err(e) => r matches Err(found) && found == e,
            },
    {
        let mut file_version: i32 = 0;
        let mut ue5_version: Option<i32> = None;
        let mut file_version_licensee_ue: i32 = -1;
        let mut flags: u32 = 0;
        let mut custom_versions: Option<Vec<CustomVersion>> = None;
        if version.at_least(FAssetRegistryVersionType::WorkspaceDomain) {
            if version.at_least(FAssetRegistryVersionType::PackageFileSummaryVersionChange) {
                file_version = match asset.read_i32() {
                    Ok(v) => v,
                    Err(e) => return Err(e),
                };
                ue5_version = match asset.read_i32() {
                    Ok(v) => Some(v),
                    Err(e) => return Err(e),
                };
            } else {
                file_version = match asset.read_i32() {
                    Ok(v) => v,
                    Err(e) => return Err(e),
                };
            }
            file_version_licensee_ue = match asset.read_i32() {
                Ok(v) => v,
                Err(e) => return Err(e),
            };
            flags = match asset.read_u32() {
                Ok(v) => v,
                Err(e) => return Err(e),
            };
            custom_versions = match read_custom_versions(asset) {
                Ok(v) => Some(v),
                Err(e) => return Err(e),
            };
        }
        Ok((file_version, ue5_version, file_version_licensee_ue, flags, custom_versions))
    }

    /// Reads the data of a package from a registry of the given version.
    pub fn new<Reader: AssetReader>(asset: &mut Reader, version: FAssetRegistryVersionType) -> (r:
        Result<AssetPackageData, Error>)
        ensures
            final(asset).bytes() == old(asset).bytes(),
            final(asset).env() == old(asset).env(),
            yields_deep(
                r,
                final(asset).pos(),
                parse_package_data(old(asset).env(), old(asset).bytes(), old(asset).pos(), version),
            ),
    {
        proof {
            reveal(parse_package_data);
        }
        let package_name = match asset.read_fname() {
            Ok(v) => v,
            Err(e) => return Err(e),
        };
        let disk_size = match asset.read_i64() {
            Ok(v) => v,
            Err(e) => return Err(e),
        };
        let package_guid = match asset.read_exact(16) {
            Ok(v) => guid_from_bytes(&v),
            Err(e) => return Err(e),
        };
        let mut cooked_hash: Option<FMD5Hash> = None;
        if version.at_least(FAssetRegistryVersionType::AddedCookedMD5Hash) {
            cooked_hash = match FMD5Hash::new(asset) {
                Ok(v) => Some(v),
                Err(e) => return Err(e),
            };
        }
        let (file_version, ue5_version, file_version_licensee_ue, flags, custom_versions) =
            match AssetPackageData::read_versions(asset, version) {
            Ok(v) => v,
            Err(e) => return Err(e),
        };
        let mut imported_classes: Option<Vec<FName>> = None;
        if version.at_least(FAssetRegistryVersionType::PackageImportedClasses) {
            imported_classes = match read_imported_classes(asset) {
                Ok(v) => Some(v),
                Err(e) => return Err(e),
            };
        }
        Ok(
            AssetPackageData {
                package_name,
                package_guid,
                cooked_hash,
                imported_classes,
                disk_size,
                file_version,
                ue5_version,
                file_version_licensee_ue,
                custom_versions,
                flags,
                version,
            },
        )
    }

    /// Writes the name, the size and the identifier of the package, and
    /// the hash of the cooked package where it is stored.
    fn write_head<Writer: AssetWriter>(&self, asset: &mut Writer) -> (r: Result<(), Error>)
        ensures
            final(asset).env() == old(asset).env(),
            emitted_checked(
                r,
                (),
                old(asset).bytes(),
                old(asset).pos(),
                final(asset).bytes(),
                final(asset).pos(),
                ser_package_head(old(asset).env(), self.deep_view()),
            ),
    {
        let ghost env = asset.env();
        let ghost origin = asset.bytes();
        let ghost start = asset.pos();
        let ghost mut done = Seq::<u8>::empty();
        let ghost v = self.deep_view();
        let ghost b = asset.bytes();
        let ghost p = asset.pos();
        let ghost part = ser_fname(env, v.package_name);
        let step = asset.write_fname(&self.package_name);
        proof {
            if part is Ok {
                lemma_emit(step, origin, start, done, part->Ok_0, b, p, asset.bytes(), asset.pos());
                done = done + part->Ok_0;
            }
        }
        if let Err(e) = step {
            return Err(e);
        }
        let ghost b = asset.bytes();
        let ghost p = asset.pos();
        let ghost chunk = enc_i64(self.disk_size);
        let step = asset.write_i64(self.disk_size);
        proof {
            lemma_emit(step, origin, start, done, chunk, b, p, asset.bytes(), asset.pos());
            done = done + chunk;
        }
        if let Err(e) = step {
            return Err(e);
        }
        let ghost b = asset.bytes();
        let ghost p = asset.pos();
        let ghost chunk = self.package_guid@;
        let step = asset.write_all(self.package_guid.as_slice());
        proof {
            lemma_emit(step, origin, start, done, chunk, b, p, asset.bytes(), asset.pos());
            done = done + chunk;
        }
        if let Err(e) = step {
            return Err(e);
        }
        if self.version.at_least(FAssetRegistryVersionType::AddedCookedMD5Hash) {
            let cooked_hash = match &self.cooked_hash {
                Some(hash) => hash,
                None => return Err(
                    Error::Registry(
                        RegistryError::Version(RegistryField::CookedHash, self.version.ordinal()),
                    ),
                ),
            };
            let ghost b = asset.bytes();
            let ghost p = asset.pos();
            let ghost chunk = ser_md5(cooked_hash.deep_view());
            let step = cooked_hash.write(asset);
            proof {
                lemma_emit_part(
                    step,
                    (),
                    origin,
                    start,
                    done,
                    chunk,
                    b,
                    p,
                    asset.bytes(),
                    asset.pos(),
                );
                done = done + chunk;
            }
            if let Err(e) = step {
                return Err(e);
            }
        }
        assert(done =~= ser_package_head(env, v)->Ok_0);
        Ok(())
    }

    /// Writes the versions of the package, where they are stored.
    #[verifier::rlimit(60)]
    fn write_versions<Writer: AssetWriter>(&self, asset: &mut Writer) -> (r: Result<(), Error>)
        ensures
            final(asset).env() == old(asset).env(),
            emitted_checked(
                r,
                (),
                old(asset).bytes(),
                old(asset).pos(),
                final(asset).bytes(),
                final(asset).pos(),
                ser_versions(self.deep_view()),
            ),
    {
        let ghost env = asset.env();
        let ghost origin = asset.bytes();
        let ghost start = asset.pos();
        let ghost mut done = Seq::<u8>::empty();
        let ghost v = self.deep_view();
        if self.version.at_least(FAssetRegistryVersionType::WorkspaceDomain) {
            let ghost b = asset.bytes();
            let ghost p = asset.pos();
            let ghost chunk = enc_i32(self.file_version);
            let step = asset.write_i32(self.file_version);
            proof {
                lemma_emit(step, origin, start, done, chunk, b, p, asset.bytes(), asset.pos());
                done = done + chunk;
            }
            if let Err(e) = step {
                return Err(e);
            }
            if self.version.at_least(FAssetRegistryVersionType::PackageFileSummaryVersionChange) {
                let ue5_version = match self.ue5_version {
                    Some(ue5) => ue5,
                    None => return Err(
                        Error::Registry(
                            RegistryError::Version(
                                RegistryField::Ue5Version,
                                self.version.ordinal(),
                            ),
                        ),
                    ),
                };
                let ghost b = asset.bytes();
                let ghost p = asset.pos();
                let ghost chunk = enc_i32(ue5_version);
                let step = asset.write_i32(ue5_version);
                proof {
                    lemma_emit(step, origin, start, done, chunk, b, p, asset.bytes(), asset.pos());
                    done = done + chunk;
                }
                if let Err(e) = step {
                    return Err(e);
                }
            }
            let ghost b = asset.bytes();
            let ghost p = asset.pos();
            let ghost chunk = enc_i32(self.file_version_licensee_ue);
            let step = asset.write_i32(self.file_version_licensee_ue);
            proof {
                lemma_emit(step, origin, start, done, chunk, b, p, asset.bytes(), asset.pos());
                done = done + chunk;
            }
            if let Err(e) = step {
                return Err(e);
            }
            let ghost b = asset.bytes();
            let ghost p = asset.pos();
            let ghost chunk = enc_u32(self.flags);
            let step = asset.write_u32(self.flags);
            proof {
                lemma_emit(step, origin, start, done, chunk, b, p, asset.bytes(), asset.pos());
                done = done + chunk;
            }
            if let Err(e) = step {
                return Err(e);
            }
            let custom_versions = match &self.custom_versions {
                Some(custom) => custom,
                None => return Err(
                    Error::Registry(
                        RegistryError::Version(
                            RegistryField::CustomVersions,
                            self.version.ordinal(),
                        ),
                    ),
                ),
            };
            let ghost b = asset.bytes();
            let ghost p = asset.pos();
            let ghost chunk = enc_i32(custom_versions@.len() as i32);
            let step = asset.write_i32(#[verifier::truncate] (custom_versions.len() as i32));
            proof {
                lemma_emit(step, origin, start, done, chunk, b, p, asset.bytes(), asset.pos());
                done = done + chunk;
            }
            if let Err(e) = step {
                return Err(e);
            }
            let ghost b = asset.bytes();
            let ghost p = asset.pos();
            let ghost part = ser_all(custom_version_writer(), custom_versions.deep_view());
            let step = write_custom_versions(asset, custom_versions);
            proof {
                if part is Ok {
                    lemma_emit_part(
                        step,
                        (),
                        origin,
                        start,
                        done,
                        part->Ok_0,
                        b,
                        p,
                        asset.bytes(),
                        asset.pos(),
                    );
                    done = done + part->Ok_0;
                }
            }
            if let Err(e) = step {
                return Err(e);
            }
            assert(done =~= ser_versions(v)->Ok_0);
        }
        Ok(())
    }

    /// Writes the imported classes of the package, where they are stored.
    fn write_imported_classes<Writer: AssetWriter>(&self, asset: &mut Writer) -> (r: Result<
        (),
        Error,
    >)
        ensures
            final(asset).env() == old(asset).env(),
            emitted_checked(
                r,
                (),
                old(asset).bytes(),
                old(asset).pos(),
                final(asset).bytes(),
                final(asset).pos(),
                ser_imported_classes(old(asset).env(), self.deep_view()),
            ),
    {
        let ghost env = asset.env();
        let ghost origin = asset.bytes();
        let ghost start = asset.pos();
        let ghost mut done = Seq::<u8>::empty();
        let ghost v = self.deep_view();
        if self.version.at_least(FAssetRegistryVersionType::PackageImportedClasses) {
            let imported_classes = match &self.imported_classes {
                Some(classes) => classes,
                None => return Err(
                    Error::Registry(
                        RegistryError::Version(
                            RegistryField::ImportedClasses,
                            self.version.ordinal(),
                        ),
                    ),
                ),
            };
            let ghost b = asset.bytes();
            let ghost p = asset.pos();
            let ghost chunk = enc_i32(imported_classes@.len() as i32);
            let step = asset.write_i32(#[verifier::truncate] (imported_classes.len() as i32));
            proof {
                lemma_emit(step, origin, start, done, chunk, b, p, asset.bytes(), asset.pos());
                done = done + chunk;
            }
            if let Err(e) = step {
                return Err(e);
            }
            let ghost b = asset.bytes();
            let ghost p = asset.pos();
            let ghost part = ser_all(fname_writer(env), imported_classes.deep_view());
            let step = write_fname_list(asset, imported_classes);
            proof {
                if part is Ok {
                    lemma_emit_part(
                        step,
                        (),
                        origin,
                        start,
                        done,
                        part->Ok_0,
                        b,
                        p,
                        asset.bytes(),
                        asset.pos(),
                    );
                    done = done + part->Ok_0;
                }
            }
            if let Err(e) = step {
                return Err(e);
            }
            assert(done =~= ser_imported_classes(env, v)->Ok_0);
        }
        Ok(())
    }

    /// Writes the data of the package. Data that lacks a part which its
    /// version stores is refused with the error that names the part.
    pub fn write<Writer: AssetWriter>(&self, asset: &mut Writer) -> (r: Result<(), Error>)
        ensures
            final(asset).env() == old(asset).env(),
            emitted_checked(
                r,
                (),
                old(asset).bytes(),
                old(asset).pos(),
                final(asset).bytes(),
                final(asset).pos(),
                ser_package_data(old(asset).env(), self.deep_view()),
            ),
    {
        proof {
            reveal(ser_package_data);
        }
        let ghost env = asset.env();
        let ghost origin = asset.bytes();
        let ghost start = asset.pos();
        let ghost mut done = Seq::<u8>::empty();
        let ghost v = self.deep_view();
        let ghost b = asset.bytes();
        let ghost p = asset.pos();
        let ghost part = ser_package_head(env, v);
        let step = self.write_head(asset);
        proof {
            if part is Ok {
                lemma_emit_part(
                    step,
                    (),
                    origin,
                    start,
                    done,
                    part->Ok_0,
                    b,
                    p,
                    asset.bytes(),
                    asset.pos(),
                );
                done = done + part->Ok_0;
            }
        }
        if let Err(e) = step {
            return Err(e);
        }
        let ghost b = asset.bytes();
        let ghost p = asset.pos();
        let ghost part = ser_versions(v);
        let step = self.write_versions(asset);
        proof {
            if part is Ok {
                lemma_emit_part(
                    step,
                    (),
                    origin,
                    start,
                    done,
                    part->Ok_0,
                    b,
                    p,
                    asset.bytes(),
                    asset.pos(),
                );
                done = done + part->Ok_0;
            }
        }
        if let Err(e) = step {
            return Err(e);
        }
        let ghost b = asset.bytes();
        let ghost p = asset.pos();
        let ghost part = ser_imported_classes(env, v);
        let step = self.write_imported_classes(asset);
        proof {
            if part is Ok {
                lemma_emit_part(
                    step,
                    (),
                    origin,
                    start,
                    done,
                    part->Ok_0,
                    b,
                    p,
                    asset.bytes(),
                    asset.pos(),
                );
                done = done + part->Ok_0;
            }
        }
        if let Err(e) = step {
            return Err(e);
        }
        assert(done =~= ser_package_data(env, v)->Ok_0);
        Ok(())
    }
}

/// The versions of a package that are read hold custom versions whose
/// identifiers have sixteen bytes, and no more of them than a count can
/// announce.
proof fn lemma_versions_read_are_kept(
    bytes: Seq<u8>,
    pos: u64,
    version: FAssetRegistryVersionType,
)
    ensures
        parse_versions(bytes, pos, version) matches Ok((versions, _))
            ==> versions.custom_versions matches Some(custom) ==> custom.len() <= i32::MAX
            && forall|k: int| 0 <= k < custom.len() ==> (#[trigger] custom[k]).guid.len() == 16,
{
    if stores_versions(version) {
        if let Ok((versions, _)) = parse_versions(bytes, pos, version) {
            let p1 = parse_i32(bytes, pos)->Ok_0.1;
            let p2 = parse_ue5_version(bytes, p1, version)->Ok_0.1;
            let p3 = parse_i32(bytes, p2)->Ok_0.1;
            let p4 = parse_u32(bytes, p3)->Ok_0.1;
            let count = parse_i32(bytes, p4)->Ok_0.0;
            let p5 = parse_i32(bytes, p4)->Ok_0.1;
            lemma_parse_from_each(
                custom_version_reader(bytes),
                p5,
                counted(count),
                Seq::empty(),
                |custom: CustomVersionView| custom.guid.len() == 16,
            );
        }
    }
}

/// The imported classes that are read can be written by a writer that
/// agrees with the reader, and are read back when they are.
proof fn lemma_imported_classes_read_are_kept(
    reading: Env,
    writing: Env,
    bytes: Seq<u8>,
    pos: u64,
    version: FAssetRegistryVersionType,
)
    requires
        table_kept(reading),
        agreed(reading, writing),
    ensures
        parse_imported_classes(reading, bytes, pos, version) matches Ok((Some(classes), _)) ==> {
            &&& classes.len() <= i32::MAX
            &&& forall|k: int|
                0 <= k < classes.len() ==> name_kept(reading, writing, #[trigger] classes[k])
            &&& ser_all(fname_writer(writing), classes) is Ok
        },
{
    if let Ok((Some(classes), _)) = parse_imported_classes(reading, bytes, pos, version) {
        let count = parse_i32(bytes, pos)->Ok_0.0;
        let p = parse_i32(bytes, pos)->Ok_0.1;
        let f = fname_reader(reading, bytes);
        let g = fname_writer(writing);
        let good = |name: FNameView| name_kept(reading, writing, name) && g(name) is Ok;
        assert forall|at: u64| (#[trigger] f(at)) is Ok implies good(f(at)->Ok_0.0) by {
            lemma_fname_read_is_kept_by(reading, writing, bytes, at);
        }
        lemma_parse_from_each(f, p, counted(count), Seq::empty(), good);
        assert forall|k: int| 0 <= k < classes.len() implies (#[trigger] g(classes[k])) is Ok
            && name_kept(reading, writing, classes[k]) by {
            assert(good(classes[k]));
        }
        lemma_ser_from_total(g, classes, 0, Seq::empty());
    }
}

/// Every data of a package that is read can be written by a writer that
/// agrees with the reader, and is read back when it is.
pub proof fn lemma_package_data_read_is_kept(
    reading: Env,
    writing: Env,
    bytes: Seq<u8>,
    pos: u64,
    version: FAssetRegistryVersionType,
)
    requires
        table_kept(reading),
        agreed(reading, writing),
    ensures
        parse_package_data(reading, bytes, pos, version) matches Ok((v, _)) ==> {
            &&& v.version == version
            &&& package_data_kept(reading, writing, v)
            &&& ser_package_data(writing, v) is Ok
        },
{
    reveal(parse_package_data);
    reveal(ser_package_data);
    if let Ok((v, _)) = parse_package_data(reading, bytes, pos, version) {
        lemma_fname_read_is_kept_by(reading, writing, bytes, pos);
        let p1 = parse_package_head(reading, bytes, pos, version)->Ok_0.1;
        lemma_versions_read_are_kept(bytes, p1, version);
        let p2 = parse_versions(bytes, p1, version)->Ok_0.1;
        lemma_imported_classes_read_are_kept(reading, writing, bytes, p2, version);
        if let Some(custom) = v.custom_versions {
            lemma_ser_from_total(custom_version_writer(), custom, 0, Seq::empty());
        }
    }
}

} // verus!
