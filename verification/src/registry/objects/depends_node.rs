//! A node of the dependency graph of a registry.

use crate::custom_version::FAssetRegistryVersionType;
use crate::error::{Error, InvalidFileError};
use crate::le::{enc_i32, enc_u32, lemma_enc_dec};
use crate::reader::asset_reader::AssetReader;
use crate::reader::asset_trait::{
    agreed, lemma_fname_read_is_kept_by, lemma_fname_round_trip, name_kept, paired, parse_fname,
    ser_fname, table_kept, Env,
};
use crate::reader::asset_writer::AssetWriter;
use crate::reader::lists::{
    counted, counted_items, i32_writer, lemma_ser_i32s, read_u32_list, ser_i32s, u32_reader,
    u32_writer, write_i32_list, write_u32_list,
};
use crate::stream::{
    emitted_checked, has_at, lemma_emit, lemma_emit_part, lemma_from_round_trip,
    lemma_has_at_concat, lemma_parse_from_each, lemma_ser_from_total, parse_from, parse_i32,
    parse_many, ser_all, ser_from, yields_view, Parsed,
};
use crate::unreal_types::{FName, FNameView};
use vstd::prelude::*;

verus! {

/// A node of the dependency graph: the package that it stands for, the
/// nodes that it depends on, the flags of these dependencies, and the
/// nodes that refer to it. Other nodes are given by their index in the
/// registry.
#[derive(Clone, Debug, PartialEq, Eq, Hash)]
pub struct DependsNode {
    pub identifier: FName,
    pub dependencies: Vec<i32>,
    pub flags: Vec<u32>,
    pub referencers: Vec<i32>,
    pub index: i32,
    pub version: FAssetRegistryVersionType,
}

/// What a [`DependsNode`] stands for.
pub struct DependsNodeView {
    pub identifier: FNameView,
    pub dependencies: Seq<i32>,
    pub flags: Seq<u32>,
    pub referencers: Seq<i32>,
    pub index: i32,
    pub version: FAssetRegistryVersionType,
}

impl DeepView for DependsNode {
    type V = DependsNodeView;

    open spec fn deep_view(&self) -> DependsNodeView {
        DependsNodeView {
            identifier: self.identifier.deep_view(),
            dependencies: self.dependencies@,
            flags: self.flags@,
            referencers: self.referencers@,
            index: self.index,
            version: self.version,
        }
    }
}

/// The index of a node at `pos`, which must lead to one of the
/// `node_count` nodes of the registry.
pub open spec fn parse_node_index(bytes: Seq<u8>, pos: u64, node_count: i32) -> Parsed<i32> {
    match parse_i32(bytes, pos) {
        Err(e) => Err(e),
        Ok((index, p)) => if 0 <= index < node_count {
            Ok((index, p))
        } else {
            Err(Error::InvalidFile(InvalidFileError::DependencyIndex(index)))
        },
    }
}

/// Reading the index of one node, as a function of the position.
pub open spec fn node_index_reader(bytes: Seq<u8>, node_count: i32) -> spec_fn(u64) -> Parsed<
    i32,
> {
    |p: u64| parse_node_index(bytes, p, node_count)
}

/// What is read of a node: the package, the dependencies, their flags,
/// and the referencers.
pub struct NodeEdges {
    pub identifier: FNameView,
    pub dependencies: Seq<i32>,
    pub flags: Seq<u32>,
    pub referencers: Seq<i32>,
}

/// The node at `pos` in the layout without flags: the package, the
/// number of dependencies, the number of referencers, the dependencies,
/// and the referencers. A negative number announces no items.
pub open spec fn parse_edges_before_flags(
    env: Env,
    bytes: Seq<u8>,
    pos: u64,
    node_count: i32,
) -> Parsed<NodeEdges> {
    match parse_fname(env, bytes, pos) {
        Err(e) => Err(e),
        Ok((identifier, p1)) =>
        match parse_i32(bytes, p1) {
            Err(e) => Err(e),
            Ok((n_dep, p2)) =>
            match parse_i32(bytes, p2) {
                Err(e) => Err(e),
                Ok((n_ref, p3)) =>
                match parse_many(node_index_reader(bytes, node_count), p3, counted(n_dep)) {
                    Err(e) => Err(e),
                    Ok((dependencies, p4)) =>
                    match parse_many(node_index_reader(bytes, node_count), p4, counted(n_ref)) {
                        Err(e) => Err(e),
                        Ok((referencers, p5)) =>
                        Ok((NodeEdges {
                            identifier,
                            dependencies,
                            flags: Seq::empty(),
                            referencers,
                        }, p5)),
                    },
                },
            },
        },
    }
}

/// The node at `pos` in the layout with flags: the package, the counted
/// dependencies, the counted flag words, and the counted referencers. A
/// negative count announces no items.
pub open spec fn parse_edges(env: Env, bytes: Seq<u8>, pos: u64, node_count: i32) -> Parsed<
    NodeEdges,
> {
    match parse_fname(env, bytes, pos) {
        Err(e) => Err(e),
        Ok((identifier, p1)) =>
        match parse_i32(bytes, p1) {
            Err(e) => Err(e),
            Ok((n_dep, p2)) =>
            match parse_many(node_index_reader(bytes, node_count), p2, counted(n_dep)) {
                Err(e) => Err(e),
                Ok((dependencies, p3)) =>
                match parse_i32(bytes, p3) {
                    Err(e) => Err(e),
                    Ok((n_flags, p4)) =>
                    match parse_many(u32_reader(bytes), p4, counted(n_flags)) {
                        Err(e) => Err(e),
                        Ok((flags, p5)) =>
                        match parse_i32(bytes, p5) {
                            Err(e) => Err(e),
                            Ok((n_ref, p6)) =>
                            match parse_many(
                                node_index_reader(bytes, node_count),
                                p6,
                                counted(n_ref),
                            ) {
                                Err(e) => Err(e),
                                Ok((referencers, p7)) =>
                                Ok((
                                    NodeEdges { identifier, dependencies, flags, referencers },
                                    p7,
                                )),
                            },
                        },
                    },
                },
            },
        },
    }
}

/// The bytes of a run of 32-bit words.
pub open spec fn ser_u32s(items: Seq<u32>) -> Result<Seq<u8>, Error> {
    ser_all(u32_writer(), items)
}

/// The bytes of a node in the layout without flags.
pub open spec fn ser_edges_before_flags(env: Env, v: DependsNodeView) -> Result<Seq<u8>, Error> {
    match ser_fname(env, v.identifier) {
        Err(e) => Err(e),
        Ok(identifier) => Ok(
            identifier + enc_i32(v.dependencies.len() as i32) + enc_i32(v.referencers.len() as i32)
                + ser_i32s(v.dependencies) + ser_i32s(v.referencers),
        ),
    }
}

/// The bytes of a node in the layout with flags.
pub open spec fn ser_edges(env: Env, v: DependsNodeView) -> Result<Seq<u8>, Error> {
    match ser_fname(env, v.identifier) {
        Err(e) => Err(e),
        Ok(identifier) => match ser_u32s(v.flags) {
            Err(e) => Err(e),
            Ok(flags) => Ok(
                identifier + enc_i32(v.dependencies.len() as i32) + ser_i32s(v.dependencies)
                    + enc_i32(v.flags.len() as i32) + flags + enc_i32(v.referencers.len() as i32)
                    + ser_i32s(v.referencers),
            ),
        },
    }
}

/// Whether every index of a run leads to one of `node_count` nodes.
pub open spec fn indices_within(items: Seq<i32>, node_count: i32) -> bool {
    forall|k: int| 0 <= k < items.len() ==> 0 <= #[trigger] items[k] < node_count
}

/// A run of indices of nodes that was written is read back, where every
/// index leads to a node.
pub proof fn lemma_node_indices_round_trip(
    bytes: Seq<u8>,
    pos: u64,
    items: Seq<i32>,
    node_count: i32,
)
    requires
        bytes.len() <= u64::MAX,
        has_at(bytes, pos as int, ser_i32s(items)),
        indices_within(items, node_count),
    ensures
        parse_many(node_index_reader(bytes, node_count), pos, items.len()) == Ok::<
            (Seq<i32>, u64),
            Error,
        >((items, (pos + ser_i32s(items).len()) as u64)),
{
    lemma_enc_dec();
    lemma_ser_i32s(items);
    let f = node_index_reader(bytes, node_count);
    let g = i32_writer();
    assert forall|k: int, p: u64|
        #![trigger g(items[k]), f(p)]
        0 <= k < items.len() && g(items[k]) is Ok && has_at(bytes, p as int, g(items[k])->Ok_0)
            implies f(p) == Ok::<(i32, u64), Error>(
        (items[k], (p + g(items[k])->Ok_0.len()) as u64),
    ) by {
        assert(0 <= items[k] < node_count);
    }
    lemma_from_round_trip(f, g, bytes, pos, items, 0, Seq::empty());
    assert(Seq::<i32>::empty() + items.subrange(0, items.len() as int) =~= items);
}

/// The bytes of the words from index `i` on stand behind what was
/// gathered, four for each.
pub proof fn lemma_ser_u32s_from(items: Seq<u32>, i: nat, acc: Seq<u8>)
    requires
        i <= items.len(),
    ensures
        ser_from(u32_writer(), items, i, acc) is Ok,
        ser_from(u32_writer(), items, i, acc)->Ok_0.len() == acc.len() + 4 * (items.len() - i),
    decreases items.len() - i,
{
    lemma_enc_dec();
    if i < items.len() {
        lemma_ser_u32s_from(items, i + 1, acc + enc_u32(items[i as int]));
    }
}

/// A run of words that was written is read back.
pub proof fn lemma_u32s_round_trip(bytes: Seq<u8>, pos: u64, items: Seq<u32>)
    requires
        bytes.len() <= u64::MAX,
        ser_u32s(items) is Ok,
        has_at(bytes, pos as int, ser_u32s(items)->Ok_0),
    ensures
        parse_many(u32_reader(bytes), pos, items.len()) == Ok::<(Seq<u32>, u64), Error>(
            (items, (pos + ser_u32s(items)->Ok_0.len()) as u64),
        ),
{
    lemma_enc_dec();
    let f = u32_reader(bytes);
    let g = u32_writer();
    assert forall|k: int, p: u64|
        #![trigger g(items[k]), f(p)]
        0 <= k < items.len() && g(items[k]) is Ok && has_at(bytes, p as int, g(items[k])->Ok_0)
            implies f(p) == Ok::<(u32, u64), Error>(
        (items[k], (p + g(items[k])->Ok_0.len()) as u64),
    ) by {}
    lemma_from_round_trip(f, g, bytes, pos, items, 0, Seq::empty());
    assert(Seq::<u32>::empty() + items.subrange(0, items.len() as int) =~= items);
}

/// Whether the edges of a node are read back as they were written in a
/// registry of `node_count` nodes: the name of its package is, every edge
/// leads to a node, and the numbers of its edges and flags fit the stored
/// counts.
pub open spec fn edges_kept(
    reading: Env,
    writing: Env,
    v: DependsNodeView,
    node_count: i32,
) -> bool {
    &&& name_kept(reading, writing, v.identifier)
    &&& indices_within(v.dependencies, node_count)
    &&& indices_within(v.referencers, node_count)
    &&& v.dependencies.len() <= i32::MAX
    &&& v.referencers.len() <= i32::MAX
    &&& v.flags.len() <= i32::MAX
}

/// The edges of a node that were written without flags are read back.
pub proof fn lemma_edges_before_flags_round_trip(
    reading: Env,
    writing: Env,
    bytes: Seq<u8>,
    pos: u64,
    v: DependsNodeView,
    node_count: i32,
)
    requires
        paired(reading, writing),
        bytes.len() <= u64::MAX,
        ser_edges_before_flags(writing, v) is Ok,
        has_at(bytes, pos as int, ser_edges_before_flags(writing, v)->Ok_0),
        edges_kept(reading, writing, v, node_count),
        v.flags.len() == 0,
    ensures
        parse_edges_before_flags(reading, bytes, pos, node_count) == Ok::<(NodeEdges, u64), Error>(
            (
                NodeEdges {
                    identifier: v.identifier,
                    dependencies: v.dependencies,
                    flags: v.flags,
                    referencers: v.referencers,
                },
                (pos + ser_edges_before_flags(writing, v)->Ok_0.len()) as u64,
            ),
        ),
{
    lemma_enc_dec();
    lemma_ser_i32s(v.dependencies);
    lemma_ser_i32s(v.referencers);
    let c1 = ser_fname(writing, v.identifier)->Ok_0;
    let c2 = enc_i32(v.dependencies.len() as i32);
    let c3 = enc_i32(v.referencers.len() as i32);
    let c4 = ser_i32s(v.dependencies);
    let c5 = ser_i32s(v.referencers);
    lemma_has_at_concat(bytes, pos as int, c1 + c2 + c3 + c4, c5);
    lemma_has_at_concat(bytes, pos as int, c1 + c2 + c3, c4);
    lemma_has_at_concat(bytes, pos as int, c1 + c2, c3);
    lemma_has_at_concat(bytes, pos as int, c1, c2);
    lemma_fname_round_trip(reading, writing, bytes, pos, v.identifier);
    let p3 = (pos + c1.len() + 8) as u64;
    lemma_node_indices_round_trip(bytes, p3, v.dependencies, node_count);
    let p4 = (p3 + c4.len()) as u64;
    lemma_node_indices_round_trip(bytes, p4, v.referencers, node_count);
    assert(v.flags =~= Seq::<u32>::empty());
}

/// The edges of a node that were written with flags are read back.
#[verifier::rlimit(60)]
pub proof fn lemma_edges_round_trip(
    reading: Env,
    writing: Env,
    bytes: Seq<u8>,
    pos: u64,
    v: DependsNodeView,
    node_count: i32,
)
    requires
        paired(reading, writing),
        bytes.len() <= u64::MAX,
        ser_edges(writing, v) is Ok,
        has_at(bytes, pos as int, ser_edges(writing, v)->Ok_0),
        edges_kept(reading, writing, v, node_count),
    ensures
        parse_edges(reading, bytes, pos, node_count) == Ok::<(NodeEdges, u64), Error>(
            (
                NodeEdges {
                    identifier: v.identifier,
                    dependencies: v.dependencies,
                    flags: v.flags,
                    referencers: v.referencers,
                },
                (pos + ser_edges(writing, v)->Ok_0.len()) as u64,
            ),
        ),
{
    lemma_enc_dec();
    lemma_ser_i32s(v.dependencies);
    lemma_ser_i32s(v.referencers);
    lemma_ser_u32s_from(v.flags, 0, Seq::empty());
    let c1 = ser_fname(writing, v.identifier)->Ok_0;
    let c2 = enc_i32(v.dependencies.len() as i32);
    let c3 = ser_i32s(v.dependencies);
    let c4 = enc_i32(v.flags.len() as i32);
    let c5 = ser_u32s(v.flags)->Ok_0;
    let c6 = enc_i32(v.referencers.len() as i32);
    let c7 = ser_i32s(v.referencers);
    lemma_has_at_concat(bytes, pos as int, c1 + c2 + c3 + c4 + c5 + c6, c7);
    lemma_has_at_concat(bytes, pos as int, c1 + c2 + c3 + c4 + c5, c6);
    lemma_has_at_concat(bytes, pos as int, c1 + c2 + c3 + c4, c5);
    lemma_has_at_concat(bytes, pos as int, c1 + c2 + c3, c4);
    lemma_has_at_concat(bytes, pos as int, c1 + c2, c3);
    lemma_has_at_concat(bytes, pos as int, c1, c2);
    lemma_fname_round_trip(reading, writing, bytes, pos, v.identifier);
    let p2 = (pos + c1.len() + 4) as u64;
    lemma_node_indices_round_trip(bytes, p2, v.dependencies, node_count);
    let p4 = (p2 + c3.len() + 4) as u64;
    lemma_u32s_round_trip(bytes, p4, v.flags);
    let p6 = (p4 + c5.len() + 4) as u64;
    lemma_node_indices_round_trip(bytes, p6, v.referencers, node_count);
}

/// Reads `count` indices of nodes.
#[verifier::loop_isolation(false)]
fn read_node_indices<Reader: AssetReader>(
    asset: &mut Reader,
    count: usize,
    node_count: i32,
) -> (r: Result<Vec<i32>, Error>)
    ensures
        final(asset).bytes() == old(asset).bytes(),
        final(asset).env() == old(asset).env(),
        yields_view(
            r,
            final(asset).pos(),
            parse_many(
                node_index_reader(old(asset).bytes(), node_count),
                old(asset).pos(),
                count as nat,
            ),
        ),
{
    let ghost env = asset.env();
    let ghost bytes = asset.bytes();
    let ghost start = asset.pos();
    let ghost f = node_index_reader(bytes, node_count);
    let mut items: Vec<i32> = Vec::new();
    let mut i: usize = 0;
    while i < count
        invariant
            i <= count,
            asset.bytes() == bytes,
            asset.env() == env,
            parse_many(f, start, count as nat) == parse_from(
                f,
                asset.pos(),
                (count - i) as nat,
                items@,
            ),
        decreases count - i,
    {
        let item = match read_node_index(asset, node_count) {
            Ok(item) => item,
            Err(e) => return Err(e),
        };
        items.push(item);
        i = i + 1;
    }
    Ok(items)
}

/// Reads the index of one node.
fn read_node_index<Reader: AssetReader>(asset: &mut Reader, node_count: i32) -> (r: Result<
    i32,
    Error,
>)
    ensures
        final(asset).bytes() == old(asset).bytes(),
        final(asset).env() == old(asset).env(),
        crate::stream::yields(
            r,
            final(asset).pos(),
            parse_node_index(old(asset).bytes(), old(asset).pos(), node_count),
        ),
{
    let index = match asset.read_i32() {
        Ok(v) => v,
        Err(e) => return Err(e),
    };
    if 0 <= index && index < node_count {
        Ok(index)
    } else {
        Err(Error::InvalidFile(InvalidFileError::DependencyIndex(index)))
    }
}

impl DependsNode {
    /// The node with the given index and no edges, for the package `None`.
    pub fn new(index: i32, version: FAssetRegistryVersionType) -> (node: DependsNode)
        ensures
            node.deep_view() == (DependsNodeView {
                identifier: crate::exports::normal_export::none_fname(),
                dependencies: Seq::empty(),
                flags: Seq::empty(),
                referencers: Seq::empty(),
                index,
                version,
            }),
    {
        let identifier = FName::from_slice("None");
        proof {
            reveal_strlit("None");
            assert(identifier.deep_view().content =~= crate::cursor_ext::none_name());
        }
        DependsNode {
            identifier,
            dependencies: Vec::new(),
            flags: Vec::new(),
            referencers: Vec::new(),
            index,
            version,
        }
    }

    /// The version of the registry that the node belongs to.
    pub fn get_version(&self) -> (v: FAssetRegistryVersionType)
        ensures
            v == self.deep_view().version,
    {
        self.version
    }

    /// The edges that were read into a node.
    pub open spec fn loaded(before: DependsNodeView, edges: NodeEdges) -> DependsNodeView {
        DependsNodeView {
            identifier: edges.identifier,
            dependencies: edges.dependencies,
            flags: edges.flags,
            referencers: edges.referencers,
            index: before.index,
            version: before.version,
        }
    }

    /// Reads the edges of the node in the layout without flags. Every
    /// edge must lead to one of the `node_count` nodes of the registry.
    /// Where reading fails, the node is left as it was.
    pub fn load_dependencies_before_flags<Reader: AssetReader>(
        &mut self,
        asset: &mut Reader,
        node_count: i32,
    ) -> (r: Result<(), Error>)
        ensures
            final(asset).bytes() == old(asset).bytes(),
            final(asset).env() == old(asset).env(),
            match parse_edges_before_flags(
                old(asset).env(),
                old(asset).bytes(),
                old(asset).pos(),
                node_count,
            ) {
                Ok((edges, end)) => r is Ok && final(asset).pos() == end && final(self).deep_view()
                    == DependsNode::loaded(old(self).deep_view(), edges),
                Err(e) => r == Err::<(), Error>(e) && final(self).deep_view() == old(
                    self,
                ).deep_view(),
            },
    {
        let identifier = match asset.read_fname() {
            Ok(v) => v,
            Err(e) => return Err(e),
        };
        let n_dep = match asset.read_i32() {
            Ok(v) => v,
            Err(e) => return Err(e),
        };
        let n_ref = match asset.read_i32() {
            Ok(v) => v,
            Err(e) => return Err(e),
        };
        let dependencies = match read_node_indices(asset, counted_items(n_dep), node_count) {
            Ok(v) => v,
            Err(e) => return Err(e),
        };
        let referencers = match read_node_indices(asset, counted_items(n_ref), node_count) {
            Ok(v) => v,
            Err(e) => return Err(e),
        };
        self.identifier = identifier;
        self.dependencies = dependencies;
        self.flags = Vec::new();
        self.referencers = referencers;
        Ok(())
    }

    /// Reads the edges of the node in the layout with flags. Every edge
    /// must lead to one of the `node_count` nodes of the registry. Where
    /// reading fails, the node is left as it was.
    pub fn load_dependencies<Reader: AssetReader>(
        &mut self,
        asset: &mut Reader,
        node_count: i32,
    ) -> (r: Result<(), Error>)
        ensures
            final(asset).bytes() == old(asset).bytes(),
            final(asset).env() == old(asset).env(),
            match parse_edges(old(asset).env(), old(asset).bytes(), old(asset).pos(), node_count) {
                Ok((edges, end)) => r is Ok && final(asset).pos() == end && final(self).deep_view()
                    == DependsNode::loaded(old(self).deep_view(), edges),
                Err(e) => r == Err::<(), Error>(e) && final(self).deep_view() == old(
                    self,
                ).deep_view(),
            },
    {
        let identifier = match asset.read_fname() {
            Ok(v) => v,
            Err(e) => return Err(e),
        };
        let n_dep = match asset.read_i32() {
            Ok(v) => v,
            Err(e) => return Err(e),
        };
        let dependencies = match read_node_indices(asset, counted_items(n_dep), node_count) {
            Ok(v) => v,
            Err(e) => return Err(e),
        };
        let n_flags = match asset.read_i32() {
            Ok(v) => v,
            Err(e) => return Err(e),
        };
        let flags = match read_u32_list(asset, counted_items(n_flags)) {
            Ok(v) => v,
            Err(e) => return Err(e),
        };
        let n_ref = match asset.read_i32() {
            Ok(v) => v,
            Err(e) => return Err(e),
        };
        let referencers = match read_node_indices(asset, counted_items(n_ref), node_count) {
            Ok(v) => v,
            Err(e) => return Err(e),
        };
        self.identifier = identifier;
        self.dependencies = dependencies;
        self.flags = flags;
        self.referencers = referencers;
        Ok(())
    }

    /// Writes the node in the layout without flags.
    #[verifier::rlimit(40)]
    pub fn save_dependencies_before_flags<Writer: AssetWriter>(&self, asset: &mut Writer) -> (r:
        Result<(), Error>)
        ensures
            final(asset).env() == old(asset).env(),
            emitted_checked(
                r,
                (),
                old(asset).bytes(),
                old(asset).pos(),
                final(asset).bytes(),
                final(asset).pos(),
                ser_edges_before_flags(old(asset).env(), self.deep_view()),
            ),
    {
        let ghost env = asset.env();
        let ghost origin = asset.bytes();
        let ghost start = asset.pos();
        let ghost mut done = Seq::<u8>::empty();
        let ghost v = self.deep_view();
        let ghost b = asset.bytes();
        let ghost p = asset.pos();
        let ghost part = ser_fname(env, v.identifier);
        let step = asset.write_fname(&self.identifier);
        proof {
            if part is Ok {
                lemma_emit(step, origin, start, done, part->Ok_0, b, p, asset.bytes(), asset.pos());
                done = done + part->Ok_0;
            }
        }
        if let Err(e) = step {
            return Err(e);
        }
        let ghost b = asset.bytes();
        let ghost p = asset.pos();
        let ghost chunk = enc_i32(self.dependencies@.len() as i32);
        let step = asset.write_i32(#[verifier::truncate] (self.dependencies.len() as i32));
        proof {
            lemma_emit(step, origin, start, done, chunk, b, p, asset.bytes(), asset.pos());
            done = done + chunk;
        }
        if let Err(e) = step {
            return Err(e);
        }
        let ghost b = asset.bytes();
        let ghost p = asset.pos();
        let ghost chunk = enc_i32(self.referencers@.len() as i32);
        let step = asset.write_i32(#[verifier::truncate] (self.referencers.len() as i32));
        proof {
            lemma_emit(step, origin, start, done, chunk, b, p, asset.bytes(), asset.pos());
            done = done + chunk;
        }
        if let Err(e) = step {
            return Err(e);
        }
        let ghost b = asset.bytes();
        let ghost p = asset.pos();
        let ghost chunk = ser_i32s(self.dependencies@);
        let step = write_i32_list(asset, &self.dependencies);
        proof {
            lemma_emit_part(step, (), origin, start, done, chunk, b, p, asset.bytes(), asset.pos());
            done = done + chunk;
        }
        if let Err(e) = step {
            return Err(e);
        }
        let ghost b = asset.bytes();
        let ghost p = asset.pos();
        let ghost chunk = ser_i32s(self.referencers@);
        let step = write_i32_list(asset, &self.referencers);
        proof {
            lemma_emit_part(step, (), origin, start, done, chunk, b, p, asset.bytes(), asset.pos());
            done = done + chunk;
        }
        if let Err(e) = step {
            return Err(e);
        }
        assert(done =~= ser_edges_before_flags(env, v)->Ok_0);
        Ok(())
    }

    /// Writes the node in the layout with flags.
    #[verifier::rlimit(60)]
    pub fn save_dependencies<Writer: AssetWriter>(&self, asset: &mut Writer) -> (r: Result<
        (),
        Error,
    >)
        ensures
            final(asset).env() == old(asset).env(),
            emitted_checked(
                r,
                (),
                old(asset).bytes(),
                old(asset).pos(),
                final(asset).bytes(),
                final(asset).pos(),
                ser_edges(old(asset).env(), self.deep_view()),
            ),
    {
        let ghost env = asset.env();
        let ghost origin = asset.bytes();
        let ghost start = asset.pos();
        let ghost mut done = Seq::<u8>::empty();
        let ghost v = self.deep_view();
        let ghost b = asset.bytes();
        let ghost p = asset.pos();
        let ghost part = ser_fname(env, v.identifier);
        let step = asset.write_fname(&self.identifier);
        proof {
            if part is Ok {
                lemma_emit(step, origin, start, done, part->Ok_0, b, p, asset.bytes(), asset.pos());
                done = done + part->Ok_0;
            }
        }
        if let Err(e) = step {
            return Err(e);
        }
        let ghost b = asset.bytes();
        let ghost p = asset.pos();
        let ghost chunk = enc_i32(self.dependencies@.len() as i32);
        let step = asset.write_i32(#[verifier::truncate] (self.dependencies.len() as i32));
        proof {
            lemma_emit(step, origin, start, done, chunk, b, p, asset.bytes(), asset.pos());
            done = done + chunk;
        }
        if let Err(e) = step {
            return Err(e);
        }
        let ghost b = asset.bytes();
        let ghost p = asset.pos();
        let ghost chunk = ser_i32s(self.dependencies@);
        let step = write_i32_list(asset, &self.dependencies);
        proof {
            lemma_emit_part(step, (), origin, start, done, chunk, b, p, asset.bytes(), asset.pos());
            done = done + chunk;
        }
        if let Err(e) = step {
            return Err(e);
        }
        let ghost b = asset.bytes();
        let ghost p = asset.pos();
        let ghost chunk = enc_i32(self.flags@.len() as i32);
        let step = asset.write_i32(#[verifier::truncate] (self.flags.len() as i32));
        proof {
            lemma_emit(step, origin, start, done, chunk, b, p, asset.bytes(), asset.pos());
            done = done + chunk;
        }
        if let Err(e) = step {
            return Err(e);
        }
        let ghost b = asset.bytes();
        let ghost p = asset.pos();
        let ghost part = ser_u32s(self.flags@);
        let step = write_u32_list(asset, &self.flags);
        proof {
            if part is Ok {
                lemma_emit_part(
                    step,
                    (),
                    origin,
                    start,
                    done,
                    part->Ok_0,
                    b,
                    p,
                    asset.bytes(),
                    asset.pos(),
                );
                done = done + part->Ok_0;
            }
        }
        if let Err(e) = step {
            return Err(e);
        }
        let ghost b = asset.bytes();
        let ghost p = asset.pos();
        let ghost chunk = enc_i32(self.referencers@.len() as i32);
        let step = asset.write_i32(#[verifier::truncate] (self.referencers.len() as i32));
        proof {
            lemma_emit(step, origin, start, done, chunk, b, p, asset.bytes(), asset.pos());
            done = done + chunk;
        }
        if let Err(e) = step {
            return Err(e);
        }
        let ghost b = asset.bytes();
        let ghost p = asset.pos();
        let ghost chunk = ser_i32s(self.referencers@);
        let step = write_i32_list(asset, &self.referencers);
        proof {
            lemma_emit_part(step, (), origin, start, done, chunk, b, p, asset.bytes(), asset.pos());
            done = done + chunk;
        }
        if let Err(e) = step {
            return Err(e);
        }
        assert(done =~= ser_edges(env, v)->Ok_0);
        Ok(())
    }
}

/// Every run of indices of nodes that is read leads to nodes only, and
/// has as many indices as were asked for.
proof fn lemma_node_indices_read_are_within(
    bytes: Seq<u8>,
    pos: u64,
    count: nat,
    node_count: i32,
)
    ensures
        parse_many(node_index_reader(bytes, node_count), pos, count) matches Ok((items, _))
            ==> indices_within(items, node_count) && items.len() == count,
{
    lemma_parse_from_each(
        node_index_reader(bytes, node_count),
        pos,
        count,
        Seq::empty(),
        |index: i32| 0 <= index < node_count,
    );
}

/// The edges of a node that are read, in either layout, can be written
/// by a writer that agrees with the reader, and are read back when they
/// are.
pub proof fn lemma_edges_read_are_kept(
    reading: Env,
    writing: Env,
    bytes: Seq<u8>,
    pos: u64,
    node_count: i32,
    with_flags: bool,
    before: DependsNodeView,
)
    requires
        table_kept(reading),
        agreed(reading, writing),
    ensures
        (if with_flags {
            parse_edges(reading, bytes, pos, node_count)
        } else {
            parse_edges_before_flags(reading, bytes, pos, node_count)
        }) matches Ok((edges, _)) ==> {
            let v = DependsNode::loaded(before, edges);
            &&& edges_kept(reading, writing, v, node_count)
            &&& !with_flags ==> v.flags.len() == 0
            &&& ser_edges(writing, v) is Ok
            &&& ser_edges_before_flags(writing, v) is Ok
        },
{
    lemma_fname_read_is_kept_by(reading, writing, bytes, pos);
    if let Ok((identifier, p1)) = parse_fname(reading, bytes, pos) {
        if with_flags {
            if let Ok((edges, _)) = parse_edges(reading, bytes, pos, node_count) {
                let n_dep = parse_i32(bytes, p1)->Ok_0.0;
                let p2 = parse_i32(bytes, p1)->Ok_0.1;
                lemma_node_indices_read_are_within(bytes, p2, counted(n_dep), node_count);
                let p3 = parse_many(
                    node_index_reader(bytes, node_count),
                    p2,
                    counted(n_dep),
                )->Ok_0.1;
                let n_flags = parse_i32(bytes, p3)->Ok_0.0;
                let p4 = parse_i32(bytes, p3)->Ok_0.1;
                lemma_parse_from_each(
                    u32_reader(bytes),
                    p4,
                    counted(n_flags),
                    Seq::empty(),
                    |x: u32| true,
                );
                let p5 = parse_many(u32_reader(bytes), p4, counted(n_flags))->Ok_0.1;
                let n_ref = parse_i32(bytes, p5)->Ok_0.0;
                let p6 = parse_i32(bytes, p5)->Ok_0.1;
                lemma_node_indices_read_are_within(bytes, p6, counted(n_ref), node_count);
                lemma_ser_from_total(u32_writer(), edges.flags, 0, Seq::empty());
            }
        } else {
            if let Ok((edges, _)) = parse_edges_before_flags(reading, bytes, pos, node_count) {
                let n_dep = parse_i32(bytes, p1)->Ok_0.0;
                let p2 = parse_i32(bytes, p1)->Ok_0.1;
                let n_ref = parse_i32(bytes, p2)->Ok_0.0;
                let p3 = parse_i32(bytes, p2)->Ok_0.1;
                lemma_node_indices_read_are_within(bytes, p3, counted(n_dep), node_count);
                let p4 = parse_many(
                    node_index_reader(bytes, node_count),
                    p3,
                    counted(n_dep),
                )->Ok_0.1;
                lemma_node_indices_read_are_within(bytes, p4, counted(n_ref), node_count);
                lemma_ser_from_total(u32_writer(), edges.flags, 0, Seq::empty());
            }
        }
    }
}

} // verus!
