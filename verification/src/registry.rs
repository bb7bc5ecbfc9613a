//! The asset registry: an index of the assets of many packages.
//!
//! A registry file starts with its version. Before
//! [`FAssetRegistryVersionType::FixedTags`] the version is followed by the
//! offset of a name table, through which the names of the body are stored
//! as indices, and the table itself follows the body. From that version on
//! the body stores its names in place.

pub mod name_table_reader;
pub mod name_table_writer;
pub mod objects;

use crate::cursor::{Cursor, SeekFrom};
use crate::cursor_ext::{
    lemma_string_read_is_kept, lemma_string_round_trip, parse_string, ser_string, string_kept,
};
use crate::custom_version::{parse_registry_version, FAssetRegistryVersionType};
use crate::error::{Error, InvalidFileError, RegistryError, RegistryField};
use crate::le::{enc_i32, enc_i64, enc_u32, lemma_enc_dec};
use crate::reader::asset_reader::AssetReader;
use crate::reader::asset_trait::{
    agreed, hash_name, name_hash, paired, table_kept, AssetTrait, Env, NameTable,
};
use crate::reader::asset_writer::AssetWriter;
use crate::reader::lists::{counted, parse_array};
use crate::reader::raw_reader::raw_env;
use crate::reader::raw_writer::RawWriter;
use crate::registry::name_table_reader::{
    empty_table, parse_entry_hashes, parse_name_table, parse_names, texts, with_table,
    NameTableReader,
};
use crate::registry::name_table_writer::{lookup_table, NameTableWriter};
use crate::registry::objects::asset_data::{
    asset_data_kept, lemma_asset_data_read_is_kept, lemma_asset_data_round_trip, parse_asset_data,
    ser_asset_data, AssetData, AssetDataView,
};
use crate::registry::objects::asset_package_data::{
    lemma_package_data_read_is_kept, lemma_package_data_round_trip, missing, package_data_kept,
    parse_package_data, ser_package_data, AssetPackageData, AssetPackageDataView,
};
use crate::registry::objects::depends_node::{
    edges_kept, lemma_edges_before_flags_round_trip, lemma_edges_read_are_kept,
    lemma_edges_round_trip, parse_edges, parse_edges_before_flags, ser_edges,
    ser_edges_before_flags, DependsNode, DependsNodeView,
};
use crate::stream::{
    emitted_checked, fits, has_at, lemma_emit, lemma_emit_part, lemma_from_round_trip,
    lemma_has_at_concat, lemma_parse_from_each, lemma_ser_from_extends, lemma_ser_from_shift,
    lemma_ser_from_total, lemma_write_at_patch_mid, parse_i32, parse_i64, parse_many, ser_all,
    ser_from, write_at, yields_deep, Parsed,
};
use crate::ue4version::VER_UE4_NAME_HASHES_SERIALIZED;
use std::collections::HashMap;
use vstd::prelude::*;

verus! {

broadcast use vstd::std_specs::hash::group_hash_axioms;

/// The state of an asset registry: the data of its assets, the nodes of
/// its dependency graph, and the data of its packages. A registry that
/// stores its names through a name table holds the table and the lookup
/// from the hash of a text to its index.
pub struct AssetRegistryState {
    pub assets_data: Vec<AssetData>,
    pub depends_nodes: Vec<DependsNode>,
    pub package_data: Vec<AssetPackageData>,
    name_map: Option<Vec<String>>,
    engine_version: i32,
    name_map_lookup: Option<HashMap<u64, i32>>,
    version: FAssetRegistryVersionType,
}

/// What an [`AssetRegistryState`] stands for.
pub struct AssetRegistryStateView {
    pub assets_data: Seq<AssetDataView>,
    pub depends_nodes: Seq<DependsNodeView>,
    pub package_data: Seq<AssetPackageDataView>,
    pub name_map: Option<Seq<Seq<char>>>,
    pub name_map_lookup: Option<Map<u64, i32>>,
    pub engine_version: i32,
    pub version: FAssetRegistryVersionType,
}

impl AssetRegistryStateView {
    /// The name table and its lookup belong together: a registry holds
    /// both or none.
    pub open spec fn wf(self) -> bool {
        self.name_map is Some <==> self.name_map_lookup is Some
    }
}

/// The body of a registry.
pub struct RegistryBody {
    pub assets_data: Seq<AssetDataView>,
    pub depends_nodes: Seq<DependsNodeView>,
    pub package_data: Seq<AssetPackageDataView>,
}

/// Whether the nodes of a registry of the given version carry flags.
pub open spec fn flagged(version: FAssetRegistryVersionType) -> bool {
    version.ord() >= FAssetRegistryVersionType::AddedDependencyFlags.ord()
}

/// Whether a registry of the given version stores its names through a
/// name table.
pub open spec fn tabled(version: FAssetRegistryVersionType) -> bool {
    version.ord() < FAssetRegistryVersionType::FixedTags.ord()
}

/// Whether a registry of the given version can be read and written.
pub open spec fn supported(version: FAssetRegistryVersionType) -> bool {
    version.ord() >= FAssetRegistryVersionType::RemovedMD5Hash.ord()
}

/// Reading the data of one asset, as a function of the position.
pub open spec fn asset_reader(env: Env, bytes: Seq<u8>) -> spec_fn(u64) -> Parsed<AssetDataView> {
    |p: u64| parse_asset_data(env, bytes, p)
}

/// Writing the data of one asset, as a function of the data.
pub open spec fn asset_writer(env: Env) -> spec_fn(AssetDataView) -> Result<Seq<u8>, Error> {
    |v: AssetDataView| ser_asset_data(env, v)
}

/// Reading the data of one package, as a function of the position.
pub open spec fn package_reader(
    env: Env,
    bytes: Seq<u8>,
    version: FAssetRegistryVersionType,
) -> spec_fn(
    u64,
) -> Parsed<AssetPackageDataView> {
    |p: u64| parse_package_data(env, bytes, p, version)
}

/// Writing the data of one package, as a function of the data.
pub open spec fn package_writer(env: Env) -> spec_fn(AssetPackageDataView) -> Result<
    Seq<u8>,
    Error,
> {
    |v: AssetPackageDataView| ser_package_data(env, v)
}

/// Writing one node, as a function of the node.
pub open spec fn node_writer(env: Env, with_flags: bool) -> spec_fn(DependsNodeView) -> Result<
    Seq<u8>,
    Error,
> {
    |v: DependsNodeView|
        if with_flags {
            ser_edges(env, v)
        } else {
            ser_edges_before_flags(env, v)
        }
}

/// The node without edges that reading starts from.
pub open spec fn new_node(index: i32, version: FAssetRegistryVersionType) -> DependsNodeView {
    DependsNodeView {
        identifier: crate::exports::normal_export::none_fname(),
        dependencies: Seq::empty(),
        flags: Seq::empty(),
        referencers: Seq::empty(),
        index,
        version,
    }
}

/// The node with the given index at `pos`.
pub open spec fn parse_node(
    env: Env,
    bytes: Seq<u8>,
    pos: u64,
    node_count: i32,
    index: i32,
    version: FAssetRegistryVersionType,
) -> Parsed<DependsNodeView> {
    let edges = if flagged(version) {
        parse_edges(env, bytes, pos, node_count)
    } else {
        parse_edges_before_flags(env, bytes, pos, node_count)
    };
    match edges {
        Err(e) => Err(e),
        Ok((found, p)) => Ok((DependsNode::loaded(new_node(index, version), found), p)),
    }
}

/// The nodes from index `i` on, read from `pos` on, behind the nodes
/// `acc` that were read before.
pub open spec fn parse_nodes(
    env: Env,
    bytes: Seq<u8>,
    pos: u64,
    node_count: i32,
    i: i32,
    acc: Seq<DependsNodeView>,
    version: FAssetRegistryVersionType,
) -> Parsed<Seq<DependsNodeView>>
    decreases node_count - i,
{
    if i >= node_count {
        Ok((acc, pos))
    } else {
        match parse_node(env, bytes, pos, node_count, i, version) {
            Err(e) => Err(e),
            Ok((node, p)) => parse_nodes(
                env,
                bytes,
                p,
                node_count,
                (i + 1) as i32,
                acc.push(node),
                version,
            ),
        }
    }
}

/// The dependency graph of a registry at `pos`. Without flags it is the
/// number of nodes and the nodes. With flags it is the length of what
/// follows, the number of nodes and the nodes; reading then goes on where
/// the stored length leads to.
pub open spec fn parse_graph(
    env: Env,
    bytes: Seq<u8>,
    pos: u64,
    version: FAssetRegistryVersionType,
) -> Parsed<Seq<DependsNodeView>> {
    if flagged(version) {
        match parse_i64(bytes, pos) {
            Err(e) => Err(e),
            Ok((size, p)) => match parse_i32(bytes, p) {
                Err(e) => Err(e),
                Ok((node_count, q)) => match parse_nodes(
                    env,
                    bytes,
                    q,
                    node_count,
                    0,
                    Seq::empty(),
                    version,
                ) {
                    Err(e) => Err(e),
                    Ok((nodes, _)) => Ok((nodes, p.wrapping_add(size as u64))),
                },
            },
        }
    } else {
        match parse_i32(bytes, pos) {
            Err(e) => Err(e),
            Ok((node_count, q)) => parse_nodes(env, bytes, q, node_count, 0, Seq::empty(), version),
        }
    }
}

/// The body of a registry at `pos`: the counted data of the assets, the
/// dependency graph, and the counted data of the packages. A negative
/// count announces no items.
#[verifier::opaque]
pub open spec fn parse_registry_body(
    env: Env,
    bytes: Seq<u8>,
    pos: u64,
    version: FAssetRegistryVersionType,
) -> Parsed<RegistryBody> {
    match parse_i32(bytes, pos) {
        Err(e) => Err(e),
        Ok((asset_count, p1)) =>
        match parse_many(asset_reader(env, bytes), p1, counted(asset_count)) {
            Err(e) => Err(e),
            Ok((assets_data, p2)) =>
            match parse_graph(env, bytes, p2, version) {
                Err(e) => Err(e),
                Ok((depends_nodes, p3)) =>
                match parse_i32(bytes, p3) {
                    Err(e) => Err(e),
                    Ok((package_count, p4)) =>
                    match parse_many(
                        package_reader(env, bytes, version),
                        p4,
                        counted(package_count),
                    ) {
                        Err(e) => Err(e),
                        Ok((package_data, p5)) =>
                        Ok((RegistryBody { assets_data, depends_nodes, package_data }, p5)),
                    },
                },
            },
        },
    }
}

/// The registry at `pos`, read through a reader that knows `env`: its
/// version, then for a version with name table the header of the table
/// and the body read through the table, and else the body. A version
/// before [`FAssetRegistryVersionType::RemovedMD5Hash`] is refused.
pub open spec fn parse_registry(env: Env, bytes: Seq<u8>, pos: u64) -> Result<
    AssetRegistryStateView,
    Error,
> {
    match parse_registry_version(bytes, pos) {
        Err(e) => Err(e),
        Ok((version, p)) => if !supported(version) {
            Err(Error::InvalidFile(InvalidFileError::UnsupportedRegistryVersion(version.ord())))
        } else if tabled(version) {
            match parse_name_table(env.engine_version, bytes, p) {
                Err(e) => Err(e),
                Ok((table, q)) => match parse_registry_body(
                    with_table(env, table),
                    bytes,
                    q,
                    version,
                ) {
                    Err(e) => Err(e),
                    Ok((body, _)) => Ok(
                        AssetRegistryStateView {
                            assets_data: body.assets_data,
                            depends_nodes: body.depends_nodes,
                            package_data: body.package_data,
                            name_map: Some(table.names),
                            name_map_lookup: Some(table.lookup),
                            engine_version: env.engine_version,
                            version,
                        },
                    ),
                },
            }
        } else {
            match parse_registry_body(env, bytes, p, version) {
                Err(e) => Err(e),
                Ok((body, _)) => Ok(
                    AssetRegistryStateView {
                        assets_data: body.assets_data,
                        depends_nodes: body.depends_nodes,
                        package_data: body.package_data,
                        name_map: None,
                        name_map_lookup: None,
                        engine_version: env.engine_version,
                        version,
                    },
                ),
            }
        },
    }
}

/// The bytes of the dependency graph of a registry. With flags, the graph
/// starts with the number of bytes that follow this number up to the end
/// of the last node.
pub open spec fn ser_graph(env: Env, v: AssetRegistryStateView) -> Result<Seq<u8>, Error> {
    match ser_all(node_writer(env, flagged(v.version)), v.depends_nodes) {
        Err(e) => Err(e),
        Ok(nodes) => if flagged(v.version) {
            Ok(
                enc_i64((4 + nodes.len()) as i64) + enc_i32(v.depends_nodes.len() as i32) + nodes,
            )
        } else {
            Ok(enc_i32(v.depends_nodes.len() as i32) + nodes)
        },
    }
}

/// The bytes of the counted data of the assets of a registry.
pub open spec fn ser_assets(env: Env, v: AssetRegistryStateView) -> Result<Seq<u8>, Error> {
    match ser_all(asset_writer(env), v.assets_data) {
        Err(e) => Err(e),
        Ok(assets) => Ok(enc_i32(v.assets_data.len() as i32) + assets),
    }
}

/// The bytes of the counted data of the packages of a registry.
pub open spec fn ser_packages(env: Env, v: AssetRegistryStateView) -> Result<Seq<u8>, Error> {
    match ser_all(package_writer(env), v.package_data) {
        Err(e) => Err(e),
        Ok(packages) => Ok(enc_i32(v.package_data.len() as i32) + packages),
    }
}

/// The bytes of the body of a registry.
pub open spec fn ser_registry_body(env: Env, v: AssetRegistryStateView) -> Result<Seq<u8>, Error> {
    match ser_assets(env, v) {
        Err(e) => Err(e),
        Ok(assets) => match ser_graph(env, v) {
            Err(e) => Err(e),
            Ok(graph) => match ser_packages(env, v) {
                Err(e) => Err(e),
                Ok(packages) => Ok(assets + graph + packages),
            },
        },
    }
}

/// The bytes of one entry of a name table: the text as a string, and two
/// 16-bit hashes from engine version [`VER_UE4_NAME_HASHES_SERIALIZED`]
/// on. The hashes are written as zero.
pub open spec fn ser_name_entry(engine_version: i32, name: Seq<char>) -> Seq<u8> {
    if engine_version >= VER_UE4_NAME_HASHES_SERIALIZED {
        ser_string(Some(name)) + enc_u32(0)
    } else {
        ser_string(Some(name))
    }
}

/// Writing one entry of a name table, as a function of the text.
pub open spec fn name_entry_writer(engine_version: i32) -> spec_fn(Seq<char>) -> Result<
    Seq<u8>,
    Error,
> {
    |name: Seq<char>| Ok::<Seq<u8>, Error>(ser_name_entry(engine_version, name))
}

/// The bytes of a name table: the number of its entries and the entries.
pub open spec fn ser_name_table(engine_version: i32, names: Seq<Seq<char>>) -> Result<
    Seq<u8>,
    Error,
> {
    match ser_all(name_entry_writer(engine_version), names) {
        Err(e) => Err(e),
        Ok(entries) => Ok(enc_i32(names.len() as i32) + entries),
    }
}

/// What the writer of the body of a registry knows.
pub open spec fn body_env(v: AssetRegistryStateView) -> Env {
    if tabled(v.version) && v.name_map_lookup is Some {
        with_table(raw_env(v.engine_version), lookup_table(v.name_map_lookup->Some_0))
    } else {
        raw_env(v.engine_version)
    }
}

/// The bytes of what follows the version in a registry with name table,
/// written from `start` on: the offset of the name table in the file, the
/// body, and the name table. A registry that lacks the lookup or the names
/// cannot be written.
pub open spec fn ser_tabled(v: AssetRegistryStateView, start: u64) -> Result<Seq<u8>, Error> {
    match v.name_map_lookup {
        None => Err(missing(RegistryField::NameMapLookup, v.version)),
        Some(_) => match v.name_map {
            None => Err(missing(RegistryField::NameMap, v.version)),
            Some(names) => match ser_registry_body(body_env(v), v) {
                Err(e) => Err(e),
                Ok(body) => match ser_name_table(v.engine_version, names) {
                    Err(e) => Err(e),
                    Ok(table) => Ok(enc_i64((start + 8 + body.len()) as i64) + body + table),
                },
            },
        },
    }
}

/// The bytes of a registry that is written from `start` on: its version,
/// and then what the version asks for. A version before
/// [`FAssetRegistryVersionType::RemovedMD5Hash`] cannot be written.
pub open spec fn ser_registry(v: AssetRegistryStateView, start: u64) -> Result<Seq<u8>, Error> {
    if !supported(v.version) {
        Err(Error::InvalidFile(InvalidFileError::UnsupportedRegistryVersion(v.version.ord())))
    } else if tabled(v.version) {
        match ser_tabled(v, (start + 4) as u64) {
            Err(e) => Err(e),
            Ok(rest) => Ok(enc_i32(v.version.ord()) + rest),
        }
    } else {
        match ser_registry_body(body_env(v), v) {
            Err(e) => Err(e),
            Ok(body) => Ok(enc_i32(v.version.ord()) + body),
        }
    }
}

/// What adding a name to a registry does. A registry without name table
/// is left as it is and yields zero. Where duplicates are not asked for
/// and the lookup holds the hash of the text, the registry is left as it
/// is and the index that the lookup holds is yielded. Else the text is
/// added behind the last name, the lookup leads from its hash to its
/// index, and its index is yielded.
pub open spec fn add_name(v: AssetRegistryStateView, text: Seq<char>, add_duplicates: bool) -> (
    AssetRegistryStateView,
    i32,
) {
    match v.name_map_lookup {
        None => (v, 0i32),
        Some(lookup) => if !add_duplicates && lookup.contains_key(name_hash(text)) {
            (v, lookup[name_hash(text)])
        } else {
            let names = v.name_map->Some_0;
            let index = names.len() as i32;
            (
                AssetRegistryStateView {
                    name_map: Some(names.push(text)),
                    name_map_lookup: Some(lookup.insert(name_hash(text), index)),
                    ..v
                },
                index,
            )
        },
    }
}

/// A name that is added twice without duplicates gets the same index
/// both times, and the second time the registry is left as it is.
pub proof fn lemma_add_name_twice(v: AssetRegistryStateView, text: Seq<char>)
    requires
        v.wf(),
    ensures
        add_name(add_name(v, text, false).0, text, false).1 == add_name(v, text, false).1,
        add_name(add_name(v, text, false).0, text, false).0 == add_name(v, text, false).0,
{
}

/// Names that are added with duplicates get strictly increasing indices:
/// in a registry with name table that holds fewer names than the largest
/// index, the name added second gets a larger index than the name added
/// first.
pub proof fn lemma_add_name_duplicates_increase(
    v: AssetRegistryStateView,
    first: Seq<char>,
    second: Seq<char>,
)
    requires
        v.wf(),
        v.name_map_lookup is Some,
        v.name_map->Some_0.len() < i32::MAX,
    ensures
        add_name(add_name(v, first, true).0, second, true).1 > add_name(v, first, true).1,
{
}

/// The lookup that reading the names from index `i` on adds to `lookup`:
/// it leads from the hash of every text to the index of its last entry.
pub open spec fn lookup_from(names: Seq<Seq<char>>, i: nat, lookup: Map<u64, i32>) -> Map<u64, i32>
    decreases names.len() - i,
{
    if i >= names.len() {
        lookup
    } else {
        lookup_from(names, i + 1, lookup.insert(name_hash(names[i as int]), i as i32))
    }
}

/// The lookup that reading a name table yields for its names.
pub open spec fn canonical_lookup(names: Seq<Seq<char>>) -> Map<u64, i32> {
    lookup_from(names, 0, Map::empty())
}

/// A registry holds a name table and its lookup exactly where its version
/// stores one: so it is for every registry that is read, and only such a
/// registry can be written. No registry of a version that is not supported
/// is read or written.
pub proof fn lemma_registry_version_gating(
    env: Env,
    bytes: Seq<u8>,
    pos: u64,
    v: AssetRegistryStateView,
    start: u64,
)
    ensures
        parse_registry(env, bytes, pos) matches Ok(found) ==> {
            &&& supported(found.version)
            &&& found.name_map is Some <==> tabled(found.version)
            &&& found.name_map_lookup is Some <==> tabled(found.version)
        },
        ser_registry(v, start) is Ok ==> {
            &&& supported(v.version)
            &&& tabled(v.version) ==> v.name_map is Some && v.name_map_lookup is Some
        },
{
}

/// Whether no two different names of a table have the same hash.
pub open spec fn told_apart(names: Seq<Seq<char>>) -> bool {
    forall|i: int, j: int|
        0 <= i < names.len() && 0 <= j < names.len() && name_hash(#[trigger] names[i])
            == name_hash(#[trigger] names[j]) ==> names[i] == names[j]
}

/// What the lookup that reading the names from index `i` on adds to
/// `lookup` holds for a hash: for the hash of one of these names the
/// index of such a name, and else what `lookup` held.
pub proof fn lemma_lookup_from(names: Seq<Seq<char>>, i: nat, lookup: Map<u64, i32>, hash: u64)
    requires
        names.len() <= i32::MAX,
    ensures
        (exists|k: int| i <= k < names.len() && name_hash(names[k]) == hash) ==> {
            let found = lookup_from(names, i, lookup);
            &&& found.contains_key(hash)
            &&& i <= found[hash] < names.len()
            &&& name_hash(names[found[hash] as int]) == hash
        },
        (forall|k: int| i <= k < names.len() ==> name_hash(names[k]) != hash) ==> {
            let found = lookup_from(names, i, lookup);
            &&& found.contains_key(hash) <==> lookup.contains_key(hash)
            &&& lookup.contains_key(hash) ==> found[hash] == lookup[hash]
        },
    decreases names.len() - i,
{
    if i < names.len() {
        let next = lookup.insert(name_hash(names[i as int]), i as i32);
        lemma_lookup_from(names, i + 1, next, hash);
        if exists|k: int| i <= k < names.len() && name_hash(names[k]) == hash {
            let k = choose|k: int| i <= k < names.len() && name_hash(names[k]) == hash;
            if k > i {
                assert(i + 1 <= k < names.len() && name_hash(names[k]) == hash);
            } else if forall|k: int| i + 1 <= k < names.len() ==> name_hash(names[k]) != hash {
                assert(next.contains_key(hash));
            }
        }
    }
}

/// The lookup that reading a name table yields leads from every name of
/// the table to a slot that holds the name, where no two different names
/// of the table have the same hash.
pub proof fn lemma_canonical_lookup_kept(env: Env, names: Seq<Seq<char>>)
    requires
        names.len() <= i32::MAX,
        told_apart(names),
    ensures
        table_kept(with_table(env, NameTable { names, lookup: canonical_lookup(names) })),
{
    let lookup = canonical_lookup(names);
    assert forall|i: int| 0 <= i < names.len() implies {
        let hash = name_hash(#[trigger] names[i]);
        &&& lookup.contains_key(hash)
        &&& 0 <= lookup[hash] < names.len()
        &&& names[lookup[hash] as int] == names[i]
    } by {
        let hash = name_hash(names[i]);
        lemma_lookup_from(names, 0, Map::empty(), hash);
        assert(0 <= i < names.len() && name_hash(names[i]) == hash);
    }
}

/// What the reader of the body of a registry knows after it has read the
/// name table.
pub open spec fn reading_env(v: AssetRegistryStateView) -> Env {
    if tabled(v.version) && v.name_map is Some {
        with_table(
            raw_env(v.engine_version),
            NameTable { names: v.name_map->Some_0, lookup: canonical_lookup(v.name_map->Some_0) },
        )
    } else {
        raw_env(v.engine_version)
    }
}

/// Whether the nodes of a registry are read back as they were written:
/// every node holds its index and the version of the registry, its edges
/// are read back, and it holds flags only where they are stored.
pub open spec fn nodes_kept(
    reading: Env,
    writing: Env,
    nodes: Seq<DependsNodeView>,
    version: FAssetRegistryVersionType,
) -> bool {
    &&& nodes.len() <= i32::MAX
    &&& forall|k: int|
        0 <= k < nodes.len() ==> {
            &&& (#[trigger] nodes[k]).index == k
            &&& nodes[k].version == version
            &&& edges_kept(reading, writing, nodes[k], nodes.len() as i32)
            &&& !flagged(version) ==> nodes[k].flags.len() == 0
        }
}

/// Whether a registry is read back as it was written. Its version is
/// supported. With a name table it holds the names, each of them a text
/// that is read back, and the lookup that reading the table yields; else
/// it holds neither. The numbers of its items fit the stored counts, and
/// its assets, nodes and packages are read back, the packages at the
/// version of the registry.
pub open spec fn registry_kept(v: AssetRegistryStateView) -> bool {
    &&& supported(v.version)
    &&& v.assets_data.len() <= i32::MAX
    &&& v.package_data.len() <= i32::MAX
    &&& if tabled(v.version) {
        &&& v.name_map is Some
        &&& v.name_map->Some_0.len() <= i32::MAX
        &&& v.name_map_lookup == Some(canonical_lookup(v.name_map->Some_0))
        &&& forall|k: int|
            0 <= k < v.name_map->Some_0.len() ==> string_kept(
                Some(#[trigger] v.name_map->Some_0[k]),
            )
    } else {
        v.name_map is None && v.name_map_lookup is None
    }
    &&& forall|k: int|
        0 <= k < v.assets_data.len() ==> asset_data_kept(
            reading_env(v),
            body_env(v),
            #[trigger] v.assets_data[k],
        )
    &&& nodes_kept(reading_env(v), body_env(v), v.depends_nodes, v.version)
    &&& forall|k: int|
        0 <= k < v.package_data.len() ==> {
            &&& package_data_kept(reading_env(v), body_env(v), #[trigger] v.package_data[k])
            &&& v.package_data[k].version == v.version
        }
}

/// The nodes from index `i` on that were written are read back behind the
/// nodes `acc`.
#[verifier::rlimit(40)]
pub proof fn lemma_nodes_from(
    reading: Env,
    writing: Env,
    bytes: Seq<u8>,
    pos: u64,
    nodes: Seq<DependsNodeView>,
    i: nat,
    acc: Seq<DependsNodeView>,
    version: FAssetRegistryVersionType,
)
    requires
        paired(reading, writing),
        bytes.len() <= u64::MAX,
        i <= nodes.len(),
        nodes_kept(reading, writing, nodes, version),
        ser_from(node_writer(writing, flagged(version)), nodes, i, Seq::<u8>::empty()) is Ok,
        has_at(
            bytes,
            pos as int,
            ser_from(node_writer(writing, flagged(version)), nodes, i, Seq::<u8>::empty())->Ok_0,
        ),
    ensures
        parse_nodes(reading, bytes, pos, nodes.len() as i32, i as i32, acc, version) == Ok::<
            (Seq<DependsNodeView>, u64),
            Error,
        >(
            (
                acc + nodes.subrange(i as int, nodes.len() as int),
                (pos + ser_from(
                    node_writer(writing, flagged(version)),
                    nodes,
                    i,
                    Seq::<u8>::empty(),
                )->Ok_0.len()) as u64,
            ),
        ),
    decreases nodes.len() - i,
{
    let g = node_writer(writing, flagged(version));
    let none = Seq::<u8>::empty();
    if i < nodes.len() {
        let node = nodes[i as int];
        let c = g(node)->Ok_0;
        lemma_ser_from_shift(g, nodes, i + 1, none + c);
        let rest = ser_from(g, nodes, i + 1, none)->Ok_0;
        assert(none + c =~= c);
        lemma_has_at_concat(bytes, pos as int, c, rest);
        assert(edges_kept(reading, writing, node, nodes.len() as i32));
        if flagged(version) {
            lemma_edges_round_trip(reading, writing, bytes, pos, node, nodes.len() as i32);
        } else {
            lemma_edges_before_flags_round_trip(
                reading,
                writing,
                bytes,
                pos,
                node,
                nodes.len() as i32,
            );
        }
        lemma_nodes_from(
            reading,
            writing,
            bytes,
            (pos + c.len()) as u64,
            nodes,
            i + 1,
            acc.push(node),
            version,
        );
        assert(acc.push(node) + nodes.subrange(i as int + 1, nodes.len() as int) =~= acc
            + nodes.subrange(i as int, nodes.len() as int));
    } else {
        assert(acc + nodes.subrange(i as int, nodes.len() as int) =~= acc);
    }
}

/// The dependency graph of a registry that was written is read back. With
/// flags, the stored length leads to the end of the last node.
pub proof fn lemma_graph_round_trip(
    reading: Env,
    writing: Env,
    bytes: Seq<u8>,
    pos: u64,
    v: AssetRegistryStateView,
)
    requires
        paired(reading, writing),
        bytes.len() <= i64::MAX,
        nodes_kept(reading, writing, v.depends_nodes, v.version),
        ser_graph(writing, v) is Ok,
        has_at(bytes, pos as int, ser_graph(writing, v)->Ok_0),
    ensures
        parse_graph(reading, bytes, pos, v.version) == Ok::<(Seq<DependsNodeView>, u64), Error>(
            (v.depends_nodes, (pos + ser_graph(writing, v)->Ok_0.len()) as u64),
        ),
{
    lemma_enc_dec();
    let g = node_writer(writing, flagged(v.version));
    let nodes = ser_all(g, v.depends_nodes)->Ok_0;
    let count = enc_i32(v.depends_nodes.len() as i32);
    if flagged(v.version) {
        let size = enc_i64((4 + nodes.len()) as i64);
        lemma_has_at_concat(bytes, pos as int, size + count, nodes);
        lemma_has_at_concat(bytes, pos as int, size, count);
        lemma_nodes_from(
            reading,
            writing,
            bytes,
            (pos + 12) as u64,
            v.depends_nodes,
            0,
            Seq::empty(),
            v.version,
        );
    } else {
        lemma_has_at_concat(bytes, pos as int, count, nodes);
        lemma_nodes_from(
            reading,
            writing,
            bytes,
            (pos + 4) as u64,
            v.depends_nodes,
            0,
            Seq::empty(),
            v.version,
        );
    }
    assert(Seq::<DependsNodeView>::empty() + v.depends_nodes.subrange(
        0,
        v.depends_nodes.len() as int,
    ) =~= v.depends_nodes);
}

/// The body of a registry that was written is read back.
#[verifier::rlimit(80)]
pub proof fn lemma_registry_body_round_trip(
    reading: Env,
    writing: Env,
    bytes: Seq<u8>,
    pos: u64,
    v: AssetRegistryStateView,
)
    requires
        paired(reading, writing),
        bytes.len() <= i64::MAX,
        v.assets_data.len() <= i32::MAX,
        v.package_data.len() <= i32::MAX,
        forall|k: int|
            0 <= k < v.assets_data.len() ==> asset_data_kept(
                reading,
                writing,
                #[trigger] v.assets_data[k],
            ),
        nodes_kept(reading, writing, v.depends_nodes, v.version),
        forall|k: int|
            0 <= k < v.package_data.len() ==> {
                &&& package_data_kept(reading, writing, #[trigger] v.package_data[k])
                &&& v.package_data[k].version == v.version
            },
        ser_registry_body(writing, v) is Ok,
        has_at(bytes, pos as int, ser_registry_body(writing, v)->Ok_0),
    ensures
        parse_registry_body(reading, bytes, pos, v.version) == Ok::<(RegistryBody, u64), Error>(
            (
                RegistryBody {
                    assets_data: v.assets_data,
                    depends_nodes: v.depends_nodes,
                    package_data: v.package_data,
                },
                (pos + ser_registry_body(writing, v)->Ok_0.len()) as u64,
            ),
        ),
{
    reveal(parse_registry_body);
    lemma_enc_dec();
    let fa = asset_reader(reading, bytes);
    let ga = asset_writer(writing);
    let fp = package_reader(reading, bytes, v.version);
    let gp = package_writer(writing);
    let c1 = enc_i32(v.assets_data.len() as i32);
    let c2 = ser_all(ga, v.assets_data)->Ok_0;
    let c3 = ser_graph(writing, v)->Ok_0;
    let c4 = enc_i32(v.package_data.len() as i32);
    let c5 = ser_all(gp, v.package_data)->Ok_0;
    assert(ser_registry_body(writing, v)->Ok_0 =~= c1 + c2 + c3 + c4 + c5);
    lemma_has_at_concat(bytes, pos as int, c1 + c2 + c3 + c4, c5);
    lemma_has_at_concat(bytes, pos as int, c1 + c2 + c3, c4);
    lemma_has_at_concat(bytes, pos as int, c1 + c2, c3);
    lemma_has_at_concat(bytes, pos as int, c1, c2);
    assert forall|k: int, p: u64|
        #![trigger ga(v.assets_data[k]), fa(p)]
        0 <= k < v.assets_data.len() && ga(v.assets_data[k]) is Ok && has_at(
            bytes,
            p as int,
            ga(v.assets_data[k])->Ok_0,
        ) implies fa(p) == Ok::<(AssetDataView, u64), Error>(
        (v.assets_data[k], (p + ga(v.assets_data[k])->Ok_0.len()) as u64),
    ) by {
        assert(asset_data_kept(reading, writing, v.assets_data[k]));
        lemma_asset_data_round_trip(reading, writing, bytes, p, v.assets_data[k]);
    }
    lemma_from_round_trip(fa, ga, bytes, (pos + 4) as u64, v.assets_data, 0, Seq::empty());
    assert(Seq::<AssetDataView>::empty() + v.assets_data.subrange(0, v.assets_data.len() as int)
        =~= v.assets_data);
    let p2 = (pos + 4 + c2.len()) as u64;
    lemma_graph_round_trip(reading, writing, bytes, p2, v);
    let p4 = (p2 + c3.len() + 4) as u64;
    assert forall|k: int, p: u64|
        #![trigger gp(v.package_data[k]), fp(p)]
        0 <= k < v.package_data.len() && gp(v.package_data[k]) is Ok && has_at(
            bytes,
            p as int,
            gp(v.package_data[k])->Ok_0,
        ) implies fp(p) == Ok::<(AssetPackageDataView, u64), Error>(
        (v.package_data[k], (p + gp(v.package_data[k])->Ok_0.len()) as u64),
    ) by {
        assert(package_data_kept(reading, writing, v.package_data[k]));
        lemma_package_data_round_trip(reading, writing, bytes, p, v.package_data[k]);
    }
    lemma_from_round_trip(fp, gp, bytes, p4, v.package_data, 0, Seq::empty());
    assert(Seq::<AssetPackageDataView>::empty() + v.package_data.subrange(
        0,
        v.package_data.len() as int,
    ) =~= v.package_data);
}

/// The entries of a name table from index `i` on that were written are
/// read back behind the entries of `table`.
pub proof fn lemma_names_from(
    engine_version: i32,
    bytes: Seq<u8>,
    pos: u64,
    names: Seq<Seq<char>>,
    i: nat,
    table: NameTable,
)
    requires
        bytes.len() <= u64::MAX,
        i <= names.len(),
        names.len() <= i32::MAX,
        forall|k: int| 0 <= k < names.len() ==> string_kept(Some(#[trigger] names[k])),
        has_at(
            bytes,
            pos as int,
            ser_from(name_entry_writer(engine_version), names, i, Seq::<u8>::empty())->Ok_0,
        ),
    ensures
        parse_names(engine_version, bytes, pos, names.len() as i32, i as i32, table) matches Ok(
            (found, _),
        ) && found == (NameTable {
            names: table.names + names.subrange(i as int, names.len() as int),
            lookup: lookup_from(names, i, table.lookup),
        }),
    decreases names.len() - i,
{
    lemma_enc_dec();
    let g = name_entry_writer(engine_version);
    let none = Seq::<u8>::empty();
    if i < names.len() {
        let name = names[i as int];
        let c = ser_name_entry(engine_version, name);
        lemma_ser_from_shift(g, names, i + 1, none + c);
        lemma_name_entries_total(engine_version, names, i + 1, none);
        let rest = ser_from(g, names, i + 1, none)->Ok_0;
        assert(none + c =~= c);
        lemma_has_at_concat(bytes, pos as int, c, rest);
        assert(string_kept(Some(name)));
        if engine_version >= VER_UE4_NAME_HASHES_SERIALIZED {
            lemma_has_at_concat(bytes, pos as int, ser_string(Some(name)), enc_u32(0));
        }
        lemma_string_round_trip(bytes, pos, Some(name));
        let next = NameTable {
            names: table.names.push(name),
            lookup: table.lookup.insert(name_hash(name), i as i32),
        };
        lemma_names_from(engine_version, bytes, (pos + c.len()) as u64, names, i + 1, next);
        assert(table.names.push(name) + names.subrange(i as int + 1, names.len() as int)
            =~= table.names + names.subrange(i as int, names.len() as int));
    } else {
        assert(table.names + names.subrange(i as int, names.len() as int) =~= table.names);
    }
}

/// Every list of names has bytes as a name table.
pub proof fn lemma_name_entries_total(
    engine_version: i32,
    names: Seq<Seq<char>>,
    i: nat,
    acc: Seq<u8>,
)
    requires
        i <= names.len(),
    ensures
        ser_from(name_entry_writer(engine_version), names, i, acc) is Ok,
    decreases names.len() - i,
{
    if i < names.len() {
        lemma_name_entries_total(
            engine_version,
            names,
            i + 1,
            acc + ser_name_entry(engine_version, names[i as int]),
        );
    }
}

/// A name table that was written is read back through its header: where
/// the header at `pos` holds the offset `target` and the table stands
/// there, reading yields the names and their lookup and goes on behind
/// the header.
pub proof fn lemma_name_table_round_trip(
    engine_version: i32,
    bytes: Seq<u8>,
    pos: u64,
    target: u64,
    names: Seq<Seq<char>>,
)
    requires
        bytes.len() <= i64::MAX,
        0 < target,
        has_at(bytes, pos as int, enc_i64(target as i64)),
        names.len() <= i32::MAX,
        forall|k: int| 0 <= k < names.len() ==> string_kept(Some(#[trigger] names[k])),
        ser_name_table(engine_version, names) is Ok,
        has_at(bytes, target as int, ser_name_table(engine_version, names)->Ok_0),
    ensures
        parse_name_table(engine_version, bytes, pos) == Ok::<(NameTable, u64), Error>(
            (NameTable { names, lookup: canonical_lookup(names) }, (pos + 8) as u64),
        ),
{
    lemma_enc_dec();
    let count = enc_i32(names.len() as i32);
    let entries = ser_all(name_entry_writer(engine_version), names)->Ok_0;
    lemma_has_at_concat(bytes, target as int, count, entries);
    lemma_names_from(engine_version, bytes, (target + 4) as u64, names, 0, empty_table());
    assert(Seq::<Seq<char>>::empty() + names.subrange(0, names.len() as int) =~= names);
}

/// A registry with name table that was written is read back.
#[verifier::rlimit(80)]
proof fn lemma_tabled_round_trip(bytes: Seq<u8>, start: u64, v: AssetRegistryStateView)
    requires
        bytes.len() <= i64::MAX,
        registry_kept(v),
        tabled(v.version),
        ser_registry(v, start) is Ok,
        has_at(bytes, start as int, ser_registry(v, start)->Ok_0),
    ensures
        parse_name_table(v.engine_version, bytes, (start + 4) as u64) == Ok::<
            (NameTable, u64),
            Error,
        >(
            (
                NameTable {
                    names: v.name_map->Some_0,
                    lookup: canonical_lookup(v.name_map->Some_0),
                },
                (start + 12) as u64,
            ),
        ),
        parse_registry_body(reading_env(v), bytes, (start + 12) as u64, v.version) matches Ok(
            (body, _),
        ) && body == (RegistryBody {
            assets_data: v.assets_data,
            depends_nodes: v.depends_nodes,
            package_data: v.package_data,
        }),
{
    lemma_enc_dec();
    let names = v.name_map->Some_0;
    let head = enc_i32(v.version.ord());
    let body = ser_registry_body(body_env(v), v)->Ok_0;
    let table = ser_name_table(v.engine_version, names)->Ok_0;
    let target = (start + 12 + body.len()) as u64;
    let offset = enc_i64(target as i64);
    assert(ser_registry(v, start)->Ok_0 =~= head + offset + body + table);
    lemma_has_at_concat(bytes, start as int, head + offset + body, table);
    lemma_has_at_concat(bytes, start as int, head + offset, body);
    lemma_has_at_concat(bytes, start as int, head, offset);
    lemma_name_table_round_trip(v.engine_version, bytes, (start + 4) as u64, target, names);
    lemma_registry_body_round_trip(reading_env(v), body_env(v), bytes, (start + 12) as u64, v);
}

/// A registry that was written is read back: where a registry that is
/// read back as written stands in a stream from `start` on, reading it
/// there through a raw reader of its engine version yields it.
pub proof fn lemma_registry_round_trip(bytes: Seq<u8>, start: u64, v: AssetRegistryStateView)
    requires
        bytes.len() <= i64::MAX,
        registry_kept(v),
        ser_registry(v, start) is Ok,
        has_at(bytes, start as int, ser_registry(v, start)->Ok_0),
    ensures
        parse_registry(raw_env(v.engine_version), bytes, start) == Ok::<
            AssetRegistryStateView,
            Error,
        >(v),
{
    lemma_enc_dec();
    let head = enc_i32(v.version.ord());
    if tabled(v.version) {
        let rest = ser_tabled(v, (start + 4) as u64)->Ok_0;
        lemma_has_at_concat(bytes, start as int, head, rest);
        lemma_tabled_round_trip(bytes, start, v);
    } else {
        let body = ser_registry_body(body_env(v), v)->Ok_0;
        lemma_has_at_concat(bytes, start as int, head, body);
        lemma_registry_body_round_trip(reading_env(v), body_env(v), bytes, (start + 4) as u64, v);
    }
}

/// The name table that is read from index `i` on, behind a table of `i`
/// names: it holds the names that it held, every name behind them is a
/// string that is read back, and its lookup is the one that reading the
/// names from index `i` on adds.
pub proof fn lemma_names_read_are_kept(
    engine_version: i32,
    bytes: Seq<u8>,
    pos: u64,
    count: i32,
    i: i32,
    table: NameTable,
)
    requires
        0 <= i,
        table.names.len() == i,
    ensures
        parse_names(engine_version, bytes, pos, count, i, table) matches Ok((found, _)) ==> {
            &&& found.names.len() <= i32::MAX
            &&& found.names.len() >= i
            &&& found.names.subrange(0, i as int) == table.names
            &&& found.lookup == lookup_from(found.names, i as nat, table.lookup)
            &&& forall|k: int|
                i <= k < found.names.len() ==> string_kept(Some(#[trigger] found.names[k]))
        },
    decreases count - i,
{
    if i >= count {
        assert(table.names.subrange(0, i as int) =~= table.names);
    } else if let Ok((Some(name), p1)) = parse_string(bytes, pos) {
        lemma_string_read_is_kept(bytes, pos);
        if let Ok((_, p2)) = parse_entry_hashes(engine_version, bytes, p1) {
            let next = NameTable {
                names: table.names.push(name),
                lookup: table.lookup.insert(name_hash(name), i),
            };
            lemma_names_read_are_kept(engine_version, bytes, p2, count, (i + 1) as i32, next);
            if let Ok((found, _)) = parse_names(engine_version, bytes, pos, count, i, table) {
                assert(found.names.subrange(0, i as int) =~= found.names.subrange(
                    0,
                    i + 1,
                ).subrange(0, i as int));
                assert(next.names.subrange(0, i as int) =~= table.names);
                assert(found.names[i as int] == found.names.subrange(0, i + 1)[i as int]);
            }
        }
    }
}

/// The nodes that are read from index `i` on, behind `i` nodes that can
/// be written and are read back when they are, can be written by a writer
/// that agrees with the reader, and are read back when they are.
pub proof fn lemma_nodes_read_are_kept(
    reading: Env,
    writing: Env,
    bytes: Seq<u8>,
    pos: u64,
    node_count: i32,
    i: i32,
    acc: Seq<DependsNodeView>,
    version: FAssetRegistryVersionType,
)
    requires
        table_kept(reading),
        agreed(reading, writing),
        0 <= i,
        acc.len() == i,
        forall|k: int|
            0 <= k < acc.len() ==> {
                &&& (#[trigger] acc[k]).index == k
                &&& acc[k].version == version
                &&& edges_kept(reading, writing, acc[k], node_count)
                &&& !flagged(version) ==> acc[k].flags.len() == 0
                &&& node_writer(writing, flagged(version))(acc[k]) is Ok
            },
    ensures
        parse_nodes(reading, bytes, pos, node_count, i, acc, version) matches Ok((nodes, _)) ==> {
            &&& nodes.len() == if node_count > i {
                node_count
            } else {
                i
            }
            &&& forall|k: int|
                0 <= k < nodes.len() ==> {
                    &&& (#[trigger] nodes[k]).index == k
                    &&& nodes[k].version == version
                    &&& edges_kept(reading, writing, nodes[k], node_count)
                    &&& !flagged(version) ==> nodes[k].flags.len() == 0
                    &&& node_writer(writing, flagged(version))(nodes[k]) is Ok
                }
        },
    decreases node_count - i,
{
    if i < node_count {
        lemma_edges_read_are_kept(
            reading,
            writing,
            bytes,
            pos,
            node_count,
            flagged(version),
            new_node(i, version),
        );
        if let Ok((node, p)) = parse_node(reading, bytes, pos, node_count, i, version) {
            lemma_nodes_read_are_kept(
                reading,
                writing,
                bytes,
                p,
                node_count,
                (i + 1) as i32,
                acc.push(node),
                version,
            );
        }
    }
}

/// Every dependency graph that is read can be written by a writer that
/// agrees with the reader, and is read back when it is.
pub proof fn lemma_graph_read_is_kept(
    reading: Env,
    writing: Env,
    bytes: Seq<u8>,
    pos: u64,
    version: FAssetRegistryVersionType,
)
    requires
        table_kept(reading),
        agreed(reading, writing),
    ensures
        parse_graph(reading, bytes, pos, version) matches Ok((nodes, _)) ==> nodes_kept(
            reading,
            writing,
            nodes,
            version,
        ) && ser_all(node_writer(writing, flagged(version)), nodes) is Ok,
{
    if let Ok((nodes, _)) = parse_graph(reading, bytes, pos, version) {
        let q = if flagged(version) {
            parse_i32(bytes, parse_i64(bytes, pos)->Ok_0.1)->Ok_0.1
        } else {
            parse_i32(bytes, pos)->Ok_0.1
        };
        let node_count = if flagged(version) {
            parse_i32(bytes, parse_i64(bytes, pos)->Ok_0.1)->Ok_0.0
        } else {
            parse_i32(bytes, pos)->Ok_0.0
        };
        lemma_nodes_read_are_kept(
            reading,
            writing,
            bytes,
            q,
            node_count,
            0,
            Seq::empty(),
            version,
        );
        lemma_ser_from_total(node_writer(writing, flagged(version)), nodes, 0, Seq::empty());
    }
}

/// Every body of a registry that is read can be written by a writer that
/// agrees with the reader, and is read back when it is: so it is for the
/// body of every registry `v` that holds what was read.
pub proof fn lemma_registry_body_read_is_kept(
    reading: Env,
    writing: Env,
    bytes: Seq<u8>,
    pos: u64,
    v: AssetRegistryStateView,
)
    requires
        table_kept(reading),
        agreed(reading, writing),
        parse_registry_body(reading, bytes, pos, v.version) matches Ok((body, _))
            && v.assets_data == body.assets_data && v.depends_nodes == body.depends_nodes
            && v.package_data == body.package_data,
    ensures
        v.assets_data.len() <= i32::MAX,
        v.package_data.len() <= i32::MAX,
        forall|k: int|
            0 <= k < v.assets_data.len() ==> asset_data_kept(
                reading,
                writing,
                #[trigger] v.assets_data[k],
            ),
        nodes_kept(reading, writing, v.depends_nodes, v.version),
        forall|k: int|
            0 <= k < v.package_data.len() ==> {
                &&& package_data_kept(reading, writing, #[trigger] v.package_data[k])
                &&& v.package_data[k].version == v.version
            },
        ser_registry_body(writing, v) is Ok,
{
    reveal(parse_registry_body);
    let version = v.version;
    let asset_count = parse_i32(bytes, pos)->Ok_0.0;
    let p1 = parse_i32(bytes, pos)->Ok_0.1;
    let f = asset_reader(reading, bytes);
    let g = asset_writer(writing);
    let good = |a: AssetDataView| asset_data_kept(reading, writing, a) && g(a) is Ok;
    assert forall|at: u64| (#[trigger] f(at)) is Ok implies good(f(at)->Ok_0.0) by {
        lemma_asset_data_read_is_kept(reading, writing, bytes, at);
    }
    lemma_parse_from_each(f, p1, counted(asset_count), Seq::empty(), good);
    assert forall|k: int| 0 <= k < v.assets_data.len() implies (#[trigger] g(
        v.assets_data[k],
    )) is Ok && asset_data_kept(reading, writing, v.assets_data[k]) by {
        assert(good(v.assets_data[k]));
    }
    lemma_ser_from_total(g, v.assets_data, 0, Seq::empty());
    let p2 = parse_many(f, p1, counted(asset_count))->Ok_0.1;
    lemma_graph_read_is_kept(reading, writing, bytes, p2, version);
    let p3 = parse_graph(reading, bytes, p2, version)->Ok_0.1;
    let package_count = parse_i32(bytes, p3)->Ok_0.0;
    let p4 = parse_i32(bytes, p3)->Ok_0.1;
    let fp = package_reader(reading, bytes, version);
    let gp = package_writer(writing);
    let fine = |d: AssetPackageDataView|
        package_data_kept(reading, writing, d) && d.version == version && gp(d) is Ok;
    assert forall|at: u64| (#[trigger] fp(at)) is Ok implies fine(fp(at)->Ok_0.0) by {
        lemma_package_data_read_is_kept(reading, writing, bytes, at, version);
    }
    lemma_parse_from_each(fp, p4, counted(package_count), Seq::empty(), fine);
    assert forall|k: int| 0 <= k < v.package_data.len() implies (#[trigger] gp(
        v.package_data[k],
    )) is Ok && package_data_kept(reading, writing, v.package_data[k])
        && v.package_data[k].version == version by {
        assert(fine(v.package_data[k]));
    }
    lemma_ser_from_total(gp, v.package_data, 0, Seq::empty());
}

/// Every registry that is read can be written, and is read back when it
/// is, where no two different names of its name table have the same hash.
pub proof fn lemma_registry_read_is_kept(
    engine_version: i32,
    bytes: Seq<u8>,
    pos: u64,
    start: u64,
)
    requires
        parse_registry(raw_env(engine_version), bytes, pos) is Ok,
        parse_registry(raw_env(engine_version), bytes, pos)->Ok_0.name_map matches Some(names)
            ==> told_apart(names),
    ensures
        parse_registry(raw_env(engine_version), bytes, pos) matches Ok(v) && registry_kept(v)
            && ser_registry(v, start) is Ok,
{
    let v = parse_registry(raw_env(engine_version), bytes, pos)->Ok_0;
    let p = parse_registry_version(bytes, pos)->Ok_0.1;
    if tabled(v.version) {
        let table = parse_name_table(engine_version, bytes, p)->Ok_0.0;
        let q = parse_name_table(engine_version, bytes, p)->Ok_0.1;
        let name_offset = parse_i64(bytes, p)->Ok_0.0;
        if name_offset > 0 {
            let name_count = parse_i32(bytes, name_offset as u64)->Ok_0.0;
            let at = parse_i32(bytes, name_offset as u64)->Ok_0.1;
            lemma_names_read_are_kept(engine_version, bytes, at, name_count, 0, empty_table());
        }
        assert(table.lookup == canonical_lookup(table.names));
        assert(reading_env(v) == with_table(raw_env(engine_version), table));
        lemma_canonical_lookup_kept(raw_env(engine_version), table.names);
        lemma_registry_body_read_is_kept(reading_env(v), body_env(v), bytes, q, v);
        lemma_ser_from_total(name_entry_writer(engine_version), table.names, 0, Seq::empty());
    } else {
        lemma_registry_body_read_is_kept(reading_env(v), body_env(v), bytes, p, v);
    }
}

/// Reads a count and the data of as many assets.
fn read_assets<Reader: AssetReader>(asset: &mut Reader) -> (r: Result<
    Vec<AssetData>,
    Error,
>)
    ensures
        final(asset).bytes() == old(asset).bytes(),
        final(asset).env() == old(asset).env(),
        yields_deep(
            r,
            final(asset).pos(),
            parse_array(
                asset_reader(old(asset).env(), old(asset).bytes()),
                old(asset).bytes(),
                old(asset).pos(),
            ),
        ),
{
    let getter = |a: &mut Reader| -> (x: Result<AssetData, Error>)
        ensures
            final(a).bytes() == old(a).bytes(),
            final(a).env() == old(a).env(),
            yields_deep(
                x,
                final(a).pos(),
                parse_asset_data(old(a).env(), old(a).bytes(), old(a).pos()),
            ),
        { AssetData::new(a) };
    asset.read_array(getter)
}

/// Reads a count and the data of as many packages.
fn read_packages<Reader: AssetReader>(
    asset: &mut Reader,
    version: FAssetRegistryVersionType,
) -> (r: Result<Vec<AssetPackageData>, Error>)
    ensures
        final(asset).bytes() == old(asset).bytes(),
        final(asset).env() == old(asset).env(),
        yields_deep(
            r,
            final(asset).pos(),
            parse_array(
                package_reader(old(asset).env(), old(asset).bytes(), version),
                old(asset).bytes(),
                old(asset).pos(),
            ),
        ),
{
    let getter = |a: &mut Reader| -> (x: Result<AssetPackageData, Error>)
        ensures
            final(a).bytes() == old(a).bytes(),
            final(a).env() == old(a).env(),
            yields_deep(
                x,
                final(a).pos(),
                parse_package_data(old(a).env(), old(a).bytes(), old(a).pos(), version),
            ),
        { AssetPackageData::new(a, version) };
    asset.read_array(getter)
}

/// Writes the data of the assets of `items`.
#[verifier::loop_isolation(false)]
fn write_assets<Writer: AssetWriter>(asset: &mut Writer, items: &Vec<AssetData>) -> (r: Result<
    (),
    Error,
>)
    ensures
        final(asset).env() == old(asset).env(),
        emitted_checked(
            r,
            (),
            old(asset).bytes(),
            old(asset).pos(),
            final(asset).bytes(),
            final(asset).pos(),
            ser_all(asset_writer(old(asset).env()), items.deep_view()),
        ),
{
    let ghost env = asset.env();
    let ghost origin = asset.bytes();
    let ghost start = asset.pos();
    let ghost none = Seq::<u8>::empty();
    let ghost g = asset_writer(env);
    let ghost views = items.deep_view();
    let count = items.len();
    let ghost mut list = none;
    let mut i: usize = 0;
    proof {
        lemma_ser_from_extends(g, views, 0, none);
    }
    while i < count
        invariant
            i <= count,
            asset.env() == env,
            asset.bytes() == write_at(origin, start as int, list),
            asset.pos() == start + list.len(),
            fits(start, list.len()),
            ser_all(g, views) == ser_from(g, views, i as nat, list),
        decreases count - i,
    {
        let entry = &items[i];
        assert(views[i as int] == entry.deep_view());
        let ghost b = asset.bytes();
        let ghost p = asset.pos();
        let one = entry.write(asset);
        proof {
            match ser_asset_data(env, entry.deep_view()) {
                Ok(chunk) => {
                    lemma_emit_part(
                        one,
                        (),
                        origin,
                        start,
                        list,
                        chunk,
                        b,
                        p,
                        asset.bytes(),
                        asset.pos(),
                    );
                    lemma_ser_from_extends(g, views, (i + 1) as nat, list + chunk);
                    if one is Ok {
                        list = list + chunk;
                    }
                },
                Err(e) => {},
            }
        }
        if let Err(e) = one {
            return Err(e);
        }
        i = i + 1;
    }
    Ok(())
}

/// Writes the data of the packages of `items`.
#[verifier::loop_isolation(false)]
fn write_packages<Writer: AssetWriter>(
    asset: &mut Writer,
    items: &Vec<AssetPackageData>,
) -> (r: Result<(), Error>)
    ensures
        final(asset).env() == old(asset).env(),
        emitted_checked(
            r,
            (),
            old(asset).bytes(),
            old(asset).pos(),
            final(asset).bytes(),
            final(asset).pos(),
            ser_all(package_writer(old(asset).env()), items.deep_view()),
        ),
{
    let ghost env = asset.env();
    let ghost origin = asset.bytes();
    let ghost start = asset.pos();
    let ghost none = Seq::<u8>::empty();
    let ghost g = package_writer(env);
    let ghost views = items.deep_view();
    let count = items.len();
    let ghost mut list = none;
    let mut i: usize = 0;
    proof {
        lemma_ser_from_extends(g, views, 0, none);
    }
    while i < count
        invariant
            i <= count,
            asset.env() == env,
            asset.bytes() == write_at(origin, start as int, list),
            asset.pos() == start + list.len(),
            fits(start, list.len()),
            ser_all(g, views) == ser_from(g, views, i as nat, list),
        decreases count - i,
    {
        let entry = &items[i];
        assert(views[i as int] == entry.deep_view());
        let ghost b = asset.bytes();
        let ghost p = asset.pos();
        let one = entry.write(asset);
        proof {
            match ser_package_data(env, entry.deep_view()) {
                Ok(chunk) => {
                    lemma_emit_part(
                        one,
                        (),
                        origin,
                        start,
                        list,
                        chunk,
                        b,
                        p,
                        asset.bytes(),
                        asset.pos(),
                    );
                    lemma_ser_from_extends(g, views, (i + 1) as nat, list + chunk);
                    if one is Ok {
                        list = list + chunk;
                    }
                },
                Err(e) => {},
            }
        }
        if let Err(e) = one {
            return Err(e);
        }
        i = i + 1;
    }
    Ok(())
}

/// Writes the nodes of `items` in the layout without flags.
#[verifier::loop_isolation(false)]
fn write_nodes_before_flags<Writer: AssetWriter>(
    asset: &mut Writer,
    items: &Vec<DependsNode>,
) -> (r: Result<(), Error>)
    ensures
        final(asset).env() == old(asset).env(),
        emitted_checked(
            r,
            (),
            old(asset).bytes(),
            old(asset).pos(),
            final(asset).bytes(),
            final(asset).pos(),
            ser_all(node_writer(old(asset).env(), false), items.deep_view()),
        ),
{
    let ghost env = asset.env();
    let ghost origin = asset.bytes();
    let ghost start = asset.pos();
    let ghost none = Seq::<u8>::empty();
    let ghost g = node_writer(env, false);
    let ghost views = items.deep_view();
    let count = items.len();
    let ghost mut list = none;
    let mut i: usize = 0;
    proof {
        lemma_ser_from_extends(g, views, 0, none);
    }
    while i < count
        invariant
            i <= count,
            asset.env() == env,
            asset.bytes() == write_at(origin, start as int, list),
            asset.pos() == start + list.len(),
            fits(start, list.len()),
            ser_all(g, views) == ser_from(g, views, i as nat, list),
        decreases count - i,
    {
        let entry = &items[i];
        assert(views[i as int] == entry.deep_view());
        let ghost b = asset.bytes();
        let ghost p = asset.pos();
        let one = entry.save_dependencies_before_flags(asset);
        proof {
            match ser_edges_before_flags(env, entry.deep_view()) {
                Ok(chunk) => {
                    lemma_emit_part(
                        one,
                        (),
                        origin,
                        start,
                        list,
                        chunk,
                        b,
                        p,
                        asset.bytes(),
                        asset.pos(),
                    );
                    lemma_ser_from_extends(g, views, (i + 1) as nat, list + chunk);
                    if one is Ok {
                        list = list + chunk;
                    }
                },
                Err(e) => {},
            }
        }
        if let Err(e) = one {
            return Err(e);
        }
        i = i + 1;
    }
    Ok(())
}

/// Writes the nodes of `items` in the layout with flags.
#[verifier::loop_isolation(false)]
fn write_nodes<Writer: AssetWriter>(asset: &mut Writer, items: &Vec<DependsNode>) -> (r: Result<
    (),
    Error,
>)
    ensures
        final(asset).env() == old(asset).env(),
        emitted_checked(
            r,
            (),
            old(asset).bytes(),
            old(asset).pos(),
            final(asset).bytes(),
            final(asset).pos(),
            ser_all(node_writer(old(asset).env(), true), items.deep_view()),
        ),
{
    let ghost env = asset.env();
    let ghost origin = asset.bytes();
    let ghost start = asset.pos();
    let ghost none = Seq::<u8>::empty();
    let ghost g = node_writer(env, true);
    let ghost views = items.deep_view();
    let count = items.len();
    let ghost mut list = none;
    let mut i: usize = 0;
    proof {
        lemma_ser_from_extends(g, views, 0, none);
    }
    while i < count
        invariant
            i <= count,
            asset.env() == env,
            asset.bytes() == write_at(origin, start as int, list),
            asset.pos() == start + list.len(),
            fits(start, list.len()),
            ser_all(g, views) == ser_from(g, views, i as nat, list),
        decreases count - i,
    {
        let entry = &items[i];
        assert(views[i as int] == entry.deep_view());
        let ghost b = asset.bytes();
        let ghost p = asset.pos();
        let one = entry.save_dependencies(asset);
        proof {
            match ser_edges(env, entry.deep_view()) {
                Ok(chunk) => {
                    lemma_emit_part(
                        one,
                        (),
                        origin,
                        start,
                        list,
                        chunk,
                        b,
                        p,
                        asset.bytes(),
                        asset.pos(),
                    );
                    lemma_ser_from_extends(g, views, (i + 1) as nat, list + chunk);
                    if one is Ok {
                        list = list + chunk;
                    }
                },
                Err(e) => {},
            }
        }
        if let Err(e) = one {
            return Err(e);
        }
        i = i + 1;
    }
    Ok(())
}

/// Writes one entry of a name table.
fn write_name_entry<Writer: AssetWriter>(asset: &mut Writer, name: &String) -> (r: Result<
    (),
    Error,
>)
    ensures
        final(asset).env() == old(asset).env(),
        crate::stream::emitted(
            r,
            (),
            old(asset).bytes(),
            old(asset).pos(),
            final(asset).bytes(),
            final(asset).pos(),
            ser_name_entry(old(asset).env().engine_version, name@),
        ),
{
    let ghost origin = asset.bytes();
    let ghost start = asset.pos();
    let ghost mut done = Seq::<u8>::empty();
    let text = Some(name.clone());
    let ghost b = asset.bytes();
    let ghost p = asset.pos();
    let ghost chunk = ser_string(Some(name@));
    let step = asset.write_string(&text);
    proof {
        lemma_emit(
            match step {
                Ok(_) => Ok(()),
                Err(e) => Err(e),
            },
            origin, start, done, chunk, b, p, asset.bytes(), asset.pos(),
        );
        done = done + chunk;
    }
    if let Err(e) = step {
        return Err(e);
    }
    if asset.get_engine_version() >= VER_UE4_NAME_HASHES_SERIALIZED {
        let ghost b = asset.bytes();
        let ghost p = asset.pos();
        let ghost chunk = enc_u32(0);
        let step = asset.write_u32(0);
        proof {
            lemma_emit(step, origin, start, done, chunk, b, p, asset.bytes(), asset.pos());
            done = done + chunk;
        }
        if let Err(e) = step {
            return Err(e);
        }
    }
    assert(done =~= ser_name_entry(asset.env().engine_version, name@));
    Ok(())
}

/// Writes a name table: the number of its entries and the entries.
#[verifier::loop_isolation(false)]
fn write_name_table<Writer: AssetWriter>(asset: &mut Writer, names: &Vec<String>) -> (r: Result<
    (),
    Error,
>)
    ensures
        final(asset).env() == old(asset).env(),
        emitted_checked(
            r,
            (),
            old(asset).bytes(),
            old(asset).pos(),
            final(asset).bytes(),
            final(asset).pos(),
            ser_name_table(old(asset).env().engine_version, texts(names@)),
        ),
{
    let ghost env = asset.env();
    let ghost origin = asset.bytes();
    let ghost start = asset.pos();
    let ghost none = Seq::<u8>::empty();
    let ghost g = name_entry_writer(env.engine_version);
    let ghost views = texts(names@);
    let count = names.len();
    let ghost head = enc_i32(#[verifier::truncate] (count as i32));
    proof {
        lemma_ser_from_extends(g, views, 0, none);
        lemma_enc_dec();
    }
    let first = asset.write_i32(#[verifier::truncate] (count as i32));
    proof {
        lemma_emit(first, origin, start, none, head, origin, start, asset.bytes(), asset.pos());
        assert(none + head =~= head);
    }
    if let Err(e) = first {
        return Err(e);
    }
    let ghost mut list = none;
    let mut i: usize = 0;
    while i < count
        invariant
            i <= count,
            asset.env() == env,
            asset.bytes() == write_at(origin, start as int, head + list),
            asset.pos() == start + (head + list).len(),
            fits(start, (head + list).len()),
            ser_all(g, views) == ser_from(g, views, i as nat, list),
        decreases count - i,
    {
        let entry = &names[i];
        assert(views[i as int] == entry@);
        let ghost b = asset.bytes();
        let ghost p = asset.pos();
        let ghost chunk = ser_name_entry(env.engine_version, entry@);
        let one = write_name_entry(asset, entry);
        proof {
            lemma_emit_part(
                one,
                (),
                origin,
                start,
                head + list,
                chunk,
                b,
                p,
                asset.bytes(),
                asset.pos(),
            );
            assert(head + list + chunk =~= head + (list + chunk));
            lemma_ser_from_extends(g, views, (i + 1) as nat, list + chunk);
            if one is Ok {
                list = list + chunk;
            }
        }
        if let Err(e) = one {
            return Err(e);
        }
        i = i + 1;
    }
    Ok(())
}

/// Reads the nodes of a dependency graph.
#[verifier::loop_isolation(false)]
fn read_nodes<Reader: AssetReader>(
    asset: &mut Reader,
    node_count: i32,
    version: FAssetRegistryVersionType,
) -> (r: Result<Vec<DependsNode>, Error>)
    ensures
        final(asset).bytes() == old(asset).bytes(),
        final(asset).env() == old(asset).env(),
        yields_deep(
            r,
            final(asset).pos(),
            parse_nodes(
                old(asset).env(),
                old(asset).bytes(),
                old(asset).pos(),
                node_count,
                0,
                Seq::empty(),
                version,
            ),
        ),
{
    let ghost env = asset.env();
    let ghost bytes = asset.bytes();
    let ghost start = asset.pos();
    let mut nodes: Vec<DependsNode> = Vec::new();
    assert(nodes.deep_view() =~= Seq::<DependsNodeView>::empty());
    let with_flags = version.at_least(FAssetRegistryVersionType::AddedDependencyFlags);
    let mut i: i32 = 0;
    while i < node_count
        invariant
            0 <= i,
            i <= node_count || node_count < 0,
            asset.bytes() == bytes,
            asset.env() == env,
            parse_nodes(env, bytes, start, node_count, 0, Seq::empty(), version) == parse_nodes(
                env,
                bytes,
                asset.pos(),
                node_count,
                i,
                nodes.deep_view(),
                version,
            ),
        decreases node_count - i,
    {
        let ghost before = nodes.deep_view();
        let mut node = DependsNode::new(i, version);
        let loaded = if with_flags {
            node.load_dependencies(asset, node_count)
        } else {
            node.load_dependencies_before_flags(asset, node_count)
        };
        if let Err(e) = loaded {
            return Err(e);
        }
        nodes.push(node);
        assert(nodes.deep_view() =~= before.push(node.deep_view()));
        i = i + 1;
    }
    Ok(nodes)
}

impl AssetRegistryState {
    /// What this state stands for.
    pub closed spec fn view(&self) -> AssetRegistryStateView {
        AssetRegistryStateView {
            assets_data: self.assets_data.deep_view(),
            depends_nodes: self.depends_nodes.deep_view(),
            package_data: self.package_data.deep_view(),
            name_map: match self.name_map {
                Some(names) => Some(texts(names@)),
                None => None,
            },
            name_map_lookup: match self.name_map_lookup {
                Some(lookup) => Some(lookup@),
                None => None,
            },
            engine_version: self.engine_version,
            version: self.version,
        }
    }

    /// Reads the dependency graph.
    fn load_graph<Reader: AssetReader>(
        asset: &mut Reader,
        version: FAssetRegistryVersionType,
    ) -> (r: Result<Vec<DependsNode>, Error>)
        ensures
            final(asset).bytes() == old(asset).bytes(),
            final(asset).env() == old(asset).env(),
            yields_deep(
                r,
                final(asset).pos(),
                parse_graph(old(asset).env(), old(asset).bytes(), old(asset).pos(), version),
            ),
    {
        if version.before(FAssetRegistryVersionType::AddedDependencyFlags) {
            let local_num_depends_nodes = match asset.read_i32() {
                Ok(v) => v,
                Err(e) => return Err(e),
            };
            read_nodes(asset, local_num_depends_nodes, version)
        } else {
            let dependency_section_size = match asset.read_i64() {
                Ok(v) => v,
                Err(e) => return Err(e),
            };
            let dependency_section_end = asset.position().wrapping_add(
                #[verifier::truncate] (dependency_section_size as u64),
            );
            let local_num_depends_nodes = match asset.read_i32() {
                Ok(v) => v,
                Err(e) => return Err(e),
            };
            let nodes = match read_nodes(asset, local_num_depends_nodes, version) {
                Ok(v) => v,
                Err(e) => return Err(e),
            };
            asset.set_position(dependency_section_end);
            Ok(nodes)
        }
    }

    /// Reads the body of a registry.
    fn load<Reader: AssetReader>(asset: &mut Reader, version: FAssetRegistryVersionType) -> (r:
        Result<(Vec<AssetData>, Vec<DependsNode>, Vec<AssetPackageData>), Error>)
        ensures
            final(asset).bytes() == old(asset).bytes(),
            final(asset).env() == old(asset).env(),
            match parse_registry_body(
                old(asset).env(),
                old(asset).bytes(),
                old(asset).pos(),
                version,
            ) {
                Ok((body, end)) => r matches Ok(found) && final(asset).pos() == end
                    && found.0.deep_view() == body.assets_data && found.1.deep_view()
                    == body.depends_nodes && found.2.deep_view() == body.package_data,
                Err(e) => r matches Err(found) && found == e,
            },
    {
        reveal(parse_registry_body);
        let assets_data = match read_assets(asset) {
            Ok(v) => v,
            Err(e) => return Err(e),
        };
        let depends_nodes = match AssetRegistryState::load_graph(asset, version) {
            Ok(v) => v,
            Err(e) => return Err(e),
        };
        let package_data = match read_packages(asset, version) {
            Ok(v) => v,
            Err(e) => return Err(e),
        };
        Ok((assets_data, depends_nodes, package_data))
    }

    /// Reads a registry from the position of `asset` on.
    pub fn new<Reader: AssetReader>(asset: Reader) -> (r: Result<AssetRegistryState, Error>)
        ensures
            match parse_registry(asset.env(), asset.bytes(), asset.pos()) {
                Ok(v) => r matches Ok(state) && state@ == v && state@.wf(),
                Err(e) => r matches Err(found) && found == e,
            },
    {
        let mut asset = asset;
        let version = match FAssetRegistryVersionType::new(&mut asset) {
            Ok(v) => v,
            Err(e) => return Err(e),
        };
        if version.before(FAssetRegistryVersionType::RemovedMD5Hash) {
            Err(
                Error::InvalidFile(InvalidFileError::UnsupportedRegistryVersion(version.ordinal())),
            )
        } else if version.before(FAssetRegistryVersionType::FixedTags) {
            let mut name_table_reader = match NameTableReader::new(asset) {
                Ok(v) => v,
                Err(e) => return Err(e),
            };
            let (assets_data, depends_nodes, package_data) = match AssetRegistryState::load(
                &mut name_table_reader,
                version,
            ) {
                Ok(v) => v,
                Err(e) => return Err(e),
            };
            let NameTableReader { reader, name_map, name_map_lookup } = name_table_reader;
            let engine_version = reader.get_engine_version();
            Ok(
                AssetRegistryState {
                    version,
                    assets_data,
                    depends_nodes,
                    package_data,
                    name_map: Some(name_map),
                    name_map_lookup: Some(name_map_lookup),
                    engine_version,
                },
            )
        } else {
            let (assets_data, depends_nodes, package_data) = match AssetRegistryState::load(
                &mut asset,
                version,
            ) {
                Ok(v) => v,
                Err(e) => return Err(e),
            };
            let engine_version = asset.get_engine_version();
            Ok(
                AssetRegistryState {
                    version,
                    assets_data,
                    depends_nodes,
                    package_data,
                    name_map: None,
                    name_map_lookup: None,
                    engine_version,
                },
            )
        }
    }

    /// Writes the counted data of the assets.
    fn write_assets_part<Writer: AssetWriter>(&self, writer: &mut Writer) -> (r: Result<(), Error>)
        ensures
            final(writer).env() == old(writer).env(),
            emitted_checked(
                r,
                (),
                old(writer).bytes(),
                old(writer).pos(),
                final(writer).bytes(),
                final(writer).pos(),
                ser_assets(old(writer).env(), self@),
            ),
    {
        let asset = writer;
        let ghost env = asset.env();
        let ghost origin = asset.bytes();
        let ghost start = asset.pos();
        let ghost mut done = Seq::<u8>::empty();
        let ghost b = asset.bytes();
        let ghost p = asset.pos();
        let ghost chunk = enc_i32(self.assets_data@.len() as i32);
        let step = asset.write_i32(#[verifier::truncate] (self.assets_data.len() as i32));
        proof {
            lemma_emit(step, origin, start, done, chunk, b, p, asset.bytes(), asset.pos());
            done = done + chunk;
        }
        if let Err(e) = step {
            return Err(e);
        }
        let ghost b = asset.bytes();
        let ghost p = asset.pos();
        let ghost part = ser_all(asset_writer(env), self.assets_data.deep_view());
        let step = write_assets(asset, &self.assets_data);
        proof {
            if part is Ok {
                lemma_emit_part(
                    step,
                    (),
                    origin,
                    start,
                    done,
                    part->Ok_0,
                    b,
                    p,
                    asset.bytes(),
                    asset.pos(),
                );
                done = done + part->Ok_0;
            }
        }
        if let Err(e) = step {
            return Err(e);
        }
        Ok(())
    }

    /// Writes the counted data of the packages.
    fn write_packages_part<Writer: AssetWriter>(&self, writer: &mut Writer) -> (r: Result<
        (),
        Error,
    >)
        ensures
            final(writer).env() == old(writer).env(),
            emitted_checked(
                r,
                (),
                old(writer).bytes(),
                old(writer).pos(),
                final(writer).bytes(),
                final(writer).pos(),
                ser_packages(old(writer).env(), self@),
            ),
    {
        let asset = writer;
        let ghost env = asset.env();
        let ghost origin = asset.bytes();
        let ghost start = asset.pos();
        let ghost mut done = Seq::<u8>::empty();
        let ghost b = asset.bytes();
        let ghost p = asset.pos();
        let ghost chunk = enc_i32(self.package_data@.len() as i32);
        let step = asset.write_i32(#[verifier::truncate] (self.package_data.len() as i32));
        proof {
            lemma_emit(step, origin, start, done, chunk, b, p, asset.bytes(), asset.pos());
            done = done + chunk;
        }
        if let Err(e) = step {
            return Err(e);
        }
        let ghost b = asset.bytes();
        let ghost p = asset.pos();
        let ghost part = ser_all(package_writer(env), self.package_data.deep_view());
        let step = write_packages(asset, &self.package_data);
        proof {
            if part is Ok {
                lemma_emit_part(
                    step,
                    (),
                    origin,
                    start,
                    done,
                    part->Ok_0,
                    b,
                    p,
                    asset.bytes(),
                    asset.pos(),
                );
                done = done + part->Ok_0;
            }
        }
        if let Err(e) = step {
            return Err(e);
        }
        Ok(())
    }

    /// Writes the dependency graph. With flags, a slot is written first,
    /// then the number of nodes and the nodes, and then the slot is filled
    /// with the number of bytes between the slot and the end of the last
    /// node.
    #[verifier::rlimit(60)]
    fn write_graph<Writer: AssetWriter>(&self, writer: &mut Writer) -> (r: Result<(), Error>)
        ensures
            final(writer).env() == old(writer).env(),
            emitted_checked(
                r,
                (),
                old(writer).bytes(),
                old(writer).pos(),
                final(writer).bytes(),
                final(writer).pos(),
                ser_graph(old(writer).env(), self@),
            ),
    {
        let asset = writer;
        let ghost env = asset.env();
        let ghost origin = asset.bytes();
        let ghost start = asset.pos();
        let ghost mut done = Seq::<u8>::empty();
        let ghost count = enc_i32(self.depends_nodes@.len() as i32);
        proof {
            lemma_enc_dec();
        }
        if self.version.before(FAssetRegistryVersionType::AddedDependencyFlags) {
            let ghost b = asset.bytes();
            let ghost p = asset.pos();
            let ghost chunk = enc_i32(self.depends_nodes@.len() as i32);
            let step = asset.write_i32(#[verifier::truncate] (self.depends_nodes.len() as i32));
            proof {
                lemma_emit(step, origin, start, done, chunk, b, p, asset.bytes(), asset.pos());
                done = done + chunk;
            }
            if let Err(e) = step {
                return Err(e);
            }
            let ghost b = asset.bytes();
            let ghost p = asset.pos();
            let ghost part = ser_all(node_writer(env, false), self.depends_nodes.deep_view());
            let step = write_nodes_before_flags(asset, &self.depends_nodes);
            proof {
                if part is Ok {
                    lemma_emit_part(
                        step,
                        (),
                        origin,
                        start,
                        done,
                        part->Ok_0,
                        b,
                        p,
                        asset.bytes(),
                        asset.pos(),
                    );
                    done = done + part->Ok_0;
                }
            }
            if let Err(e) = step {
                return Err(e);
            }
            Ok(())
        } else {
            let pos = asset.position();
            let ghost slot = enc_i64(0);
            let ghost b = asset.bytes();
            let ghost p = asset.pos();
            let ghost chunk = enc_i64(0);
            let step = asset.write_i64(0);
            proof {
                lemma_emit(step, origin, start, done, chunk, b, p, asset.bytes(), asset.pos());
                done = done + chunk;
            }
            if let Err(e) = step {
                return Err(e);
            }
            let ghost b = asset.bytes();
            let ghost p = asset.pos();
            let ghost chunk = enc_i32(self.depends_nodes@.len() as i32);
            let step = asset.write_i32(#[verifier::truncate] (self.depends_nodes.len() as i32));
            proof {
                lemma_emit(step, origin, start, done, chunk, b, p, asset.bytes(), asset.pos());
                done = done + chunk;
            }
            if let Err(e) = step {
                return Err(e);
            }
            let ghost b = asset.bytes();
            let ghost p = asset.pos();
            let ghost part = ser_all(node_writer(env, true), self.depends_nodes.deep_view());
            let step = write_nodes(asset, &self.depends_nodes);
            proof {
                if part is Ok {
                    lemma_emit_part(
                        step,
                        (),
                        origin,
                        start,
                        done,
                        part->Ok_0,
                        b,
                        p,
                        asset.bytes(),
                        asset.pos(),
                    );
                    done = done + part->Ok_0;
                }
            }
            if let Err(e) = step {
                return Err(e);
            }
            let ghost nodes = ser_all(node_writer(env, true), self.depends_nodes.deep_view())->Ok_0;
            let end_pos = asset.position();
            asset.set_position(pos);
            let size = #[verifier::truncate] ((end_pos - pos - 8) as i64);
            let last = asset.write_i64(size);
            proof {
                assert(done =~= Seq::<u8>::empty() + slot + (count + nodes));
                lemma_write_at_patch_mid(
                    origin,
                    start as int,
                    Seq::empty(),
                    slot,
                    count + nodes,
                    enc_i64(size),
                );
                assert(Seq::<u8>::empty() + enc_i64(size) + (count + nodes) =~= enc_i64(size)
                    + count + nodes);
            }
            if let Err(e) = last {
                return Err(e);
            }
            asset.set_position(end_pos);
            Ok(())
        }
    }

    /// Writes the body of the registry.
    fn write_data<Writer: AssetWriter>(&self, writer: &mut Writer) -> (r: Result<(), Error>)
        ensures
            final(writer).env() == old(writer).env(),
            emitted_checked(
                r,
                (),
                old(writer).bytes(),
                old(writer).pos(),
                final(writer).bytes(),
                final(writer).pos(),
                ser_registry_body(old(writer).env(), self@),
            ),
    {
        let asset = writer;
        let ghost env = asset.env();
        let ghost origin = asset.bytes();
        let ghost start = asset.pos();
        let ghost mut done = Seq::<u8>::empty();
        let ghost b = asset.bytes();
        let ghost p = asset.pos();
        let ghost part = ser_assets(env, self@);
        let step = self.write_assets_part(asset);
        proof {
            if part is Ok {
                lemma_emit_part(
                    step,
                    (),
                    origin,
                    start,
                    done,
                    part->Ok_0,
                    b,
                    p,
                    asset.bytes(),
                    asset.pos(),
                );
                done = done + part->Ok_0;
            }
        }
        if let Err(e) = step {
            return Err(e);
        }
        let ghost b = asset.bytes();
        let ghost p = asset.pos();
        let ghost part = ser_graph(env, self@);
        let step = self.write_graph(asset);
        proof {
            if part is Ok {
                lemma_emit_part(
                    step,
                    (),
                    origin,
                    start,
                    done,
                    part->Ok_0,
                    b,
                    p,
                    asset.bytes(),
                    asset.pos(),
                );
                done = done + part->Ok_0;
            }
        }
        if let Err(e) = step {
            return Err(e);
        }
        let ghost b = asset.bytes();
        let ghost p = asset.pos();
        let ghost part = ser_packages(env, self@);
        let step = self.write_packages_part(asset);
        proof {
            if part is Ok {
                lemma_emit_part(
                    step,
                    (),
                    origin,
                    start,
                    done,
                    part->Ok_0,
                    b,
                    p,
                    asset.bytes(),
                    asset.pos(),
                );
                done = done + part->Ok_0;
            }
        }
        if let Err(e) = step {
            return Err(e);
        }
        assert(done =~= ser_registry_body(env, self@)->Ok_0);
        Ok(())
    }

    /// Writes what follows the version in a registry with name table: a
    /// slot, the body through a writer that stores names as indices, and
    /// the name table; then the slot is filled with the position of the
    /// name table.
    #[verifier::rlimit(80)]
    fn write_tabled(&self, writer: RawWriter) -> (out: (RawWriter, Result<(), Error>))
        requires
            writer.env() == raw_env(self@.engine_version),
            tabled(self@.version),
        ensures
            out.0.env() == writer.env(),
            emitted_checked(
                out.1,
                (),
                writer.bytes(),
                writer.pos(),
                out.0.bytes(),
                out.0.pos(),
                ser_tabled(self@, writer.pos()),
            ),
    {
        let mut writer = writer;
        let ghost v = self@;
        let ghost origin = writer.bytes();
        let ghost start = writer.pos();
        let ghost none = Seq::<u8>::empty();
        let ghost slot = enc_i64(0);
        proof {
            lemma_enc_dec();
        }
        let pos = writer.position();
        let first = writer.write_i64(0);
        proof {
            lemma_emit(
                first,
                origin,
                start,
                none,
                slot,
                origin,
                start,
                writer.bytes(),
                writer.pos(),
            );
            assert(none + slot =~= slot);
        }
        if let Err(e) = first {
            return (writer, Err(e));
        }
        let name_map_lookup = match &self.name_map_lookup {
            Some(lookup) => lookup,
            None => return (
                writer,
                Err(
                    Error::Registry(
                        RegistryError::Version(
                            RegistryField::NameMapLookup,
                            self.version.ordinal(),
                        ),
                    ),
                ),
            ),
        };
        let name_map = match &self.name_map {
            Some(names) => names,
            None => return (
                writer,
                Err(
                    Error::Registry(
                        RegistryError::Version(RegistryField::NameMap, self.version.ordinal()),
                    ),
                ),
            ),
        };
        let ghost b = writer.bytes();
        let ghost p = writer.pos();
        let mut name_table_writer = NameTableWriter::new(writer, name_map_lookup);
        let ghost body = ser_registry_body(body_env(v), v);
        let second = self.write_data(&mut name_table_writer);
        let mut writer = name_table_writer.into_inner();
        proof {
            writer.lemma_no_table();
            if body is Ok {
                lemma_emit_part(
                    second,
                    (),
                    origin,
                    start,
                    slot,
                    body->Ok_0,
                    b,
                    p,
                    writer.bytes(),
                    writer.pos(),
                );
            }
        }
        if let Err(e) = second {
            return (writer, Err(e));
        }
        let offset = writer.position();
        let ghost b = writer.bytes();
        let ghost table = ser_name_table(v.engine_version, v.name_map->Some_0);
        let third = write_name_table(&mut writer, name_map);
        proof {
            if table is Ok {
                lemma_emit_part(
                    third,
                    (),
                    origin,
                    start,
                    slot + body->Ok_0,
                    table->Ok_0,
                    b,
                    offset,
                    writer.bytes(),
                    writer.pos(),
                );
            }
        }
        if let Err(e) = third {
            return (writer, Err(e));
        }
        let end = writer.position();
        let _ = writer.seek(SeekFrom::Start(pos));
        let fourth = writer.write_i64(#[verifier::truncate] (offset as i64));
        proof {
            let rest = body->Ok_0 + table->Ok_0;
            assert(slot + body->Ok_0 + table->Ok_0 =~= none + slot + rest);
            lemma_write_at_patch_mid(
                origin,
                start as int,
                none,
                slot,
                rest,
                enc_i64(#[verifier::truncate] (offset as i64)),
            );
            let patch = enc_i64(#[verifier::truncate] (offset as i64));
            assert(none + patch + rest =~= patch + body->Ok_0 + table->Ok_0);
        }
        if let Err(e) = fourth {
            return (writer, Err(e));
        }
        let _ = writer.seek(SeekFrom::Start(end));
        (writer, Ok(()))
    }

    /// Writes the registry through `writer` and hands the writer back.
    fn write_to(&self, writer: RawWriter) -> (out: (RawWriter, Result<(), Error>))
        requires
            writer.env() == raw_env(self@.engine_version),
        ensures
            out.0.env() == writer.env(),
            emitted_checked(
                out.1,
                (),
                writer.bytes(),
                writer.pos(),
                out.0.bytes(),
                out.0.pos(),
                ser_registry(self@, writer.pos()),
            ),
    {
        let mut writer = writer;
        let ghost v = self@;
        let ghost origin = writer.bytes();
        let ghost start = writer.pos();
        let ghost none = Seq::<u8>::empty();
        let ghost head = enc_i32(self.version.ord());
        proof {
            lemma_enc_dec();
        }
        let first = self.version.write(&mut writer);
        proof {
            lemma_emit(
                first,
                origin,
                start,
                none,
                head,
                origin,
                start,
                writer.bytes(),
                writer.pos(),
            );
            assert(none + head =~= head);
        }
        if let Err(e) = first {
            return (writer, Err(e));
        }
        if self.version.before(FAssetRegistryVersionType::RemovedMD5Hash) {
            (
                writer,
                Err(
                    Error::InvalidFile(
                        InvalidFileError::UnsupportedRegistryVersion(self.version.ordinal()),
                    ),
                ),
            )
        } else if self.version.before(FAssetRegistryVersionType::FixedTags) {
            let ghost b = writer.bytes();
            let ghost p = writer.pos();
            let ghost rest = ser_tabled(v, p);
            let (writer, second) = self.write_tabled(writer);
            proof {
                if rest is Ok {
                    lemma_emit_part(
                        second,
                        (),
                        origin,
                        start,
                        head,
                        rest->Ok_0,
                        b,
                        p,
                        writer.bytes(),
                        writer.pos(),
                    );
                }
            }
            (writer, second)
        } else {
            let ghost b = writer.bytes();
            let ghost p = writer.pos();
            let ghost body = ser_registry_body(body_env(v), v);
            let second = self.write_data(&mut writer);
            proof {
                if body is Ok {
                    lemma_emit_part(
                        second,
                        (),
                        origin,
                        start,
                        head,
                        body->Ok_0,
                        b,
                        p,
                        writer.bytes(),
                        writer.pos(),
                    );
                }
            }
            (writer, second)
        }
    }

    /// Writes the registry at the position of `cursor`.
    pub fn write(&self, cursor: &mut Cursor) -> (r: Result<(), Error>)
        ensures
            emitted_checked(
                r,
                (),
                old(cursor).bytes(),
                old(cursor).pos(),
                final(cursor).bytes(),
                final(cursor).pos(),
                ser_registry(self@, old(cursor).pos()),
            ),
    {
        let mut taken = Cursor::new(Vec::new());
        core::mem::swap(cursor, &mut taken);
        let writer = RawWriter::new(taken, self.engine_version);
        let (writer, result) = self.write_to(writer);
        let mut back = writer.into_cursor();
        core::mem::swap(cursor, &mut back);
        result
    }

    /// Adds a name to the name table of the registry and yields its
    /// index; see [`add_name`].
    pub fn add_name_reference(&mut self, string: &str, add_duplicates: bool) -> (index: i32)
        requires
            old(self)@.wf(),
        ensures
            final(self)@ == add_name(old(self)@, string@, add_duplicates).0,
            index == add_name(old(self)@, string@, add_duplicates).1,
            final(self)@.wf(),
    {
        let hash = hash_name(string);
        match &mut self.name_map_lookup {
            None => 0,
            Some(lookup) => {
                if !add_duplicates {
                    if let Some(index) = lookup.get(&hash) {
                        return *index;
                    }
                }
                match &mut self.name_map {
                    None => 0,
                    Some(name_map) => {
                        let ghost before = texts(name_map@);
                        let index = #[verifier::truncate] (name_map.len() as i32);
                        name_map.push(string.to_owned());
                        assert(texts(name_map@) =~= before.push(string@));
                        lookup.insert(hash, index);
                        index
                    },
                }
            },
        }
    }

    /// Adds a name to the name table of the registry unless the lookup
    /// holds it, and yields its index.
    pub fn add_fname(&mut self, string: &str) -> (index: i32)
        requires
            old(self)@.wf(),
        ensures
            final(self)@ == add_name(old(self)@, string@, false).0,
            index == add_name(old(self)@, string@, false).1,
            final(self)@.wf(),
    {
        self.add_name_reference(string, false)
    }

    /// The version of the registry.
    pub fn get_version(&self) -> (v: FAssetRegistryVersionType)
        ensures
            v == self@.version,
    {
        self.version
    }
}

} // verus!
