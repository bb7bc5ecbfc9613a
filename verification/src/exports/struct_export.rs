//! The export of a struct or class layout, with its bytecode.

use crate::cursor::SeekFrom;
use crate::custom_version::{core_object_guid, FCoreObjectVersion};
use crate::error::{Error, NoDataError};
use crate::exports::base_export::{BaseExport, BaseExportView};
use crate::exports::normal_export::{
    lemma_normal_export_round_trip, lemma_properties_read_are_kept, normal_export_kept,
    parse_normal_export, ser_normal_export, NormalExport, NormalExportView,
};
use crate::fproperty::{
    fproperty_kept, lemma_fproperty_read_is_kept, lemma_fproperty_round_trip, parse_fproperty,
    ser_fproperty, FProperty, FPropertyView,
};
use crate::kismet::{
    code_size, lemma_code_size_bound, lemma_expression_advances, lemma_expression_round_trip,
    parse_expression, ser_expression, KismetExpression,
};
use crate::le::{enc_i32, lemma_enc_dec};
use crate::reader::asset_reader::AssetReader;
use crate::reader::asset_trait::{paired, table_kept, Env};
use crate::reader::asset_writer::AssetWriter;
use crate::reader::lists::{
    announced, lemma_announced, lemma_links_round_trip, lemma_ser_links, link_reader,
    read_link_list, ser_links, write_link_list,
};
use crate::stream::{
    emitted_checked, fits, has_at, lemma_emit, lemma_emit_part, lemma_from_round_trip,
    lemma_has_at_concat, lemma_parse_from_advances, lemma_parse_from_each, lemma_parse_from_within,
    lemma_ser_from_extends, lemma_ser_from_shift, lemma_ser_from_total, lemma_write_at_patch_mid,
    parse_from, parse_i32, parse_many, ser_all, ser_from, take, write_at, yields_deep, yields_view,
    Parsed,
};
use crate::ue4version::VER_UE4_16;
use crate::unreal_types::PackageIndex;
use crate::uproperty::{lemma_ufield_round_trip, parse_ufield, ser_ufield, stores_next, UField};
use vstd::prelude::*;

verus! {

/// The layout of a struct or class: an ordinary export, the head of the
/// field, the struct that this one extends, its children, the descriptors
/// of its properties, and its bytecode. The bytecode is held decoded, as
/// expressions, or raw, as the bytes that it takes in the file.
#[derive(Debug, PartialEq, Eq)]
pub struct StructExport {
    pub normal_export: NormalExport,
    pub field: UField,
    pub super_struct: PackageIndex,
    pub children: Vec<PackageIndex>,
    pub loaded_properties: Vec<FProperty>,
    pub script_bytecode: Option<Vec<KismetExpression>>,
    /// The number of bytes that the bytecode takes in memory, as stored.
    pub script_bytecode_size: i32,
    pub script_bytecode_raw: Option<Vec<u8>>,
}

/// What a [`StructExport`] stands for.
pub struct StructExportView {
    pub normal_export: NormalExportView,
    pub field: UField,
    pub super_struct: PackageIndex,
    pub children: Seq<PackageIndex>,
    pub loaded_properties: Seq<FPropertyView>,
    pub script_bytecode: Option<Seq<KismetExpression>>,
    pub script_bytecode_size: i32,
    pub script_bytecode_raw: Option<Seq<u8>>,
}

impl DeepView for StructExport {
    type V = StructExportView;

    open spec fn deep_view(&self) -> StructExportView {
        StructExportView {
            normal_export: self.normal_export.deep_view(),
            field: self.field,
            super_struct: self.super_struct,
            children: self.children@,
            loaded_properties: self.loaded_properties.deep_view(),
            script_bytecode: match self.script_bytecode {
                Some(code) => Some(code@),
                None => None,
            },
            script_bytecode_size: self.script_bytecode_size,
            script_bytecode_raw: match self.script_bytecode_raw {
                Some(raw) => Some(raw@),
                None => None,
            },
        }
    }
}

/// How the bytecode of a struct export is held.
#[derive(Clone, Copy, Debug, PartialEq, Eq, Hash, Structural)]
pub enum BytecodeMode {
    /// As expressions.
    Decoded,
    /// As the bytes that it takes in the file.
    Raw,
}

/// Whether a struct export lists the descriptors of its properties.
pub open spec fn lists_properties(env: Env) -> bool {
    env.version_of(core_object_guid()) >= FCoreObjectVersion::F_PROPERTIES
}

/// Reading one descriptor, as a function of the position.
pub open spec fn fproperty_reader(
    env: Env,
    bytes: Seq<u8>,
) -> spec_fn(u64) -> Parsed<FPropertyView> {
    |p: u64| parse_fproperty(env, bytes, p)
}

/// Writing one descriptor, as a function of the descriptor.
pub open spec fn fproperty_writer(env: Env) -> spec_fn(FPropertyView) -> Result<Seq<u8>, Error> {
    |v: FPropertyView| ser_fproperty(env, v)
}

/// Writing one expression, as a function of the expression.
pub open spec fn expression_writer() -> spec_fn(KismetExpression) -> Result<Seq<u8>, Error> {
    |e: KismetExpression| Ok::<Seq<u8>, Error>(ser_expression(e))
}

/// The bytes of a list of expressions on disk.
pub open spec fn ser_expressions(code: Seq<KismetExpression>) -> Seq<u8> {
    ser_all(expression_writer(), code)->Ok_0
}

/// The number of bytes that the expressions from index `i` on take in
/// memory, added to `acc`.
pub open spec fn code_from(code: Seq<KismetExpression>, i: nat, acc: nat) -> nat
    decreases code.len() - i,
{
    if i >= code.len() {
        acc
    } else {
        code_from(code, i + 1, acc + code_size(code[i as int]))
    }
}

/// The number of bytes that a list of expressions takes in memory.
pub open spec fn total_code_size(code: Seq<KismetExpression>) -> nat {
    code_from(code, 0, 0)
}

/// The number of bytes between `start` and `pos`, where positions wrap
/// around behind the largest one.
pub open spec fn consumed(pos: u64, start: u64) -> nat {
    if pos >= start {
        (pos - start) as nat
    } else {
        (pos + 0x1_0000_0000_0000_0000 - start) as nat
    }
}

/// The number of bytes that stored bytecode of the declared size takes:
/// the size itself, and for a negative size what it is when taken as
/// unsigned.
pub open spec fn storage(storage_size: i32) -> u64 {
    storage_size as u64
}

/// The expressions from `pos` on, as long as fewer than `storage_size`
/// bytes lie between `start_offset` and the position, behind the
/// expressions `acc` that were read before. The last expression may reach
/// past the declared size.
pub open spec fn parse_bytecode(
    bytes: Seq<u8>,
    pos: u64,
    start_offset: u64,
    storage_size: i32,
    acc: Seq<KismetExpression>,
) -> Parsed<Seq<KismetExpression>>
    decreases u64::MAX - pos,
{
    if consumed(pos, start_offset) < storage(storage_size) {
        match parse_expression(bytes, pos) {
            Err(e) => Err(e),
            Ok((expression, p)) => if p > pos {
                parse_bytecode(bytes, p, start_offset, storage_size, acc.push(expression))
            } else {
                Err(Error::eof())
            },
        }
    } else {
        Ok((acc, pos))
    }
}

/// What a struct export stores before its bytecode.
pub struct StructLayout {
    pub normal_export: NormalExportView,
    pub field: UField,
    pub super_struct: PackageIndex,
    pub children: Seq<PackageIndex>,
    pub loaded_properties: Seq<FPropertyView>,
}

/// The descriptors of the properties at `pos`, where they are listed: a
/// count and the descriptors.
pub open spec fn parse_loaded_properties(env: Env, bytes: Seq<u8>, pos: u64) -> Parsed<
    Seq<FPropertyView>,
> {
    if lists_properties(env) {
        match parse_i32(bytes, pos) {
            Err(e) => Err(e),
            Ok((count, p)) => parse_many(fproperty_reader(env, bytes), p, announced(count)),
        }
    } else {
        Ok((Seq::empty(), pos))
    }
}

/// What a struct export stores before its bytecode, from `pos` on: the
/// ordinary export, a word that is not kept, the head of the field, the
/// struct that it extends, its counted children, and its descriptors.
pub open spec fn parse_struct_layout(
    env: Env,
    bytes: Seq<u8>,
    pos: u64,
    base: BaseExportView,
) -> Parsed<StructLayout> {
    match parse_normal_export(env, bytes, pos, base) {
        Err(e) => Err(e),
        Ok((normal_export, p1)) =>
        match parse_i32(bytes, p1) {
            Err(e) => Err(e),
            Ok((_, p2)) =>
            match parse_ufield(env, bytes, p2) {
                Err(e) => Err(e),
                Ok((field, p3)) =>
                match parse_i32(bytes, p3) {
                    Err(e) => Err(e),
                    Ok((super_struct, p4)) =>
                    match parse_i32(bytes, p4) {
                        Err(e) => Err(e),
                        Ok((count, p5)) =>
                        match parse_many(link_reader(bytes), p5, announced(count)) {
                            Err(e) => Err(e),
                            Ok((children, p6)) =>
                            match parse_loaded_properties(env, bytes, p6) {
                                Err(e) => Err(e),
                                Ok((loaded_properties, p7)) =>
                                Ok((StructLayout {
                                    normal_export,
                                    field,
                                    super_struct: PackageIndex { index: super_struct },
                                    children,
                                    loaded_properties,
                                }, p7)),
                            },
                        },
                    },
                },
            },
        },
    }
}

/// The struct export at `pos`: its layout, the size of its bytecode in
/// memory and on disk, and the bytecode. From engine version
/// [`VER_UE4_16`] on the bytecode is decoded; where that fails, and before
/// that version, as many bytes as the size on disk declares are kept raw.
pub open spec fn parse_struct_export(
    env: Env,
    bytes: Seq<u8>,
    pos: u64,
    base: BaseExportView,
) -> Parsed<StructExportView> {
    match parse_struct_layout(env, bytes, pos, base) {
        Err(e) => Err(e),
        Ok((layout, p1)) => match parse_i32(bytes, p1) {
            Err(e) => Err(e),
            Ok((script_bytecode_size, p2)) => match parse_i32(bytes, p2) {
                Err(e) => Err(e),
                Ok((script_storage_size, start)) => {
                    let decoded = if env.engine_version >= VER_UE4_16 {
                        parse_bytecode(bytes, start, start, script_storage_size, Seq::empty())
                    } else {
                        Err(Error::eof())
                    };
                    match decoded {
                        Ok((code, end)) => Ok(
                            (
                                StructExportView {
                                    normal_export: layout.normal_export,
                                    field: layout.field,
                                    super_struct: layout.super_struct,
                                    children: layout.children,
                                    loaded_properties: layout.loaded_properties,
                                    script_bytecode: Some(code),
                                    script_bytecode_size,
                                    script_bytecode_raw: None,
                                },
                                end,
                            ),
                        ),
                        Err(_) => match take(bytes, start, (script_storage_size as usize) as nat) {
                            Err(e) => Err(e),
                            Ok((raw, end)) => Ok(
                                (
                                    StructExportView {
                                        normal_export: layout.normal_export,
                                        field: layout.field,
                                        super_struct: layout.super_struct,
                                        children: layout.children,
                                        loaded_properties: layout.loaded_properties,
                                        script_bytecode: None,
                                        script_bytecode_size,
                                        script_bytecode_raw: Some(raw),
                                    },
                                    end,
                                ),
                            ),
                        },
                    }
                },
            },
        },
    }
}

/// The bytes of the descriptors of a struct export, where they are listed.
pub open spec fn ser_loaded_properties(env: Env, v: Seq<FPropertyView>) -> Result<Seq<u8>, Error> {
    if lists_properties(env) {
        match ser_all(fproperty_writer(env), v) {
            Err(e) => Err(e),
            Ok(list) => Ok(enc_i32(v.len() as i32) + list),
        }
    } else {
        Ok(Seq::<u8>::empty())
    }
}

/// The bytes of what a struct export stores before its bytecode.
pub open spec fn ser_struct_layout(env: Env, v: StructExportView) -> Result<Seq<u8>, Error> {
    match ser_normal_export(env, v.normal_export) {
        Err(e) => Err(e),
        Ok(normal) => match ser_ufield(env, v.field) {
            Err(e) => Err(e),
            Ok(field) => match ser_loaded_properties(env, v.loaded_properties) {
                Err(e) => Err(e),
                Ok(descriptors) => Ok(
                    normal + enc_i32(0) + field + enc_i32(v.super_struct.index) + enc_i32(
                        v.children.len() as i32,
                    ) + ser_links(v.children) + descriptors,
                ),
            },
        },
    }
}

/// The bytes of the bytecode of a struct export. Decoded bytecode is
/// stored behind its size in memory and its size on disk. Raw bytecode is
/// stored behind the size in memory that the export holds and the number
/// of its bytes. An export that holds neither cannot be written.
pub open spec fn ser_struct_code(v: StructExportView) -> Result<Seq<u8>, Error> {
    match v.script_bytecode {
        Some(code) => Ok(
            enc_i32(total_code_size(code) as i32) + enc_i32(ser_expressions(code).len() as i32)
                + ser_expressions(code),
        ),
        None => match v.script_bytecode_raw {
            Some(raw) => Ok(enc_i32(v.script_bytecode_size) + enc_i32(raw.len() as i32) + raw),
            None => Err(Error::NoData(NoDataError::Bytecode)),
        },
    }
}

/// The bytes of a struct export on disk.
pub open spec fn ser_struct_export(env: Env, v: StructExportView) -> Result<Seq<u8>, Error> {
    match ser_struct_layout(env, v) {
        Err(e) => Err(e),
        Ok(layout) => match ser_struct_code(v) {
            Err(e) => Err(e),
            Ok(code) => Ok(layout + code),
        },
    }
}

/// Every list of expressions has bytes.
pub proof fn lemma_ser_expressions_from(code: Seq<KismetExpression>, i: nat, acc: Seq<u8>)
    requires
        i <= code.len(),
    ensures
        ser_from(expression_writer(), code, i, acc) is Ok,
    decreases code.len() - i,
{
    if i < code.len() {
        lemma_ser_expressions_from(code, i + 1, acc + ser_expression(code[i as int]));
    }
}

/// The number of bytes that expressions take in memory is at most twice
/// the number that they take on disk.
pub proof fn lemma_code_from_bound(code: Seq<KismetExpression>, i: nat, acc: nat, list: Seq<u8>)
    requires
        i <= code.len(),
        acc <= 2 * list.len(),
    ensures
        code_from(code, i, acc) <= 2 * ser_from(expression_writer(), code, i, list)->Ok_0.len(),
    decreases code.len() - i,
{
    lemma_ser_expressions_from(code, i, list);
    if i < code.len() {
        let e = code[i as int];
        lemma_code_size_bound(e);
        lemma_code_from_bound(code, i + 1, acc + code_size(e), list + ser_expression(e));
    }
}

/// Whether what a struct export stores before its bytecode is read back
/// as it was written: its ordinary export is and has no extra bytes, the
/// head of its field holds a link exactly where links are stored, the
/// numbers of its children and descriptors fit the stored counts, its
/// descriptors are read back, and it lists descriptors only where they
/// are stored.
pub open spec fn struct_layout_kept(reading: Env, writing: Env, v: StructExportView) -> bool {
    &&& normal_export_kept(reading, writing, v.normal_export)
    &&& v.normal_export.extras.len() == 0
    &&& v.field.next is Some <==> stores_next(writing)
    &&& v.children.len() <= i32::MAX
    &&& v.loaded_properties.len() <= i32::MAX
    &&& !lists_properties(writing) ==> v.loaded_properties.len() == 0
    &&& forall|k: int|
        0 <= k < v.loaded_properties.len() ==> fproperty_kept(
            reading,
            writing,
            #[trigger] v.loaded_properties[k],
        )
}

/// The descriptors of a struct export that were written are read back.
#[verifier::rlimit(40)]
pub proof fn lemma_loaded_properties_round_trip(
    reading: Env,
    writing: Env,
    bytes: Seq<u8>,
    pos: u64,
    v: Seq<FPropertyView>,
)
    requires
        paired(reading, writing),
        bytes.len() <= u64::MAX,
        ser_loaded_properties(writing, v) is Ok,
        has_at(bytes, pos as int, ser_loaded_properties(writing, v)->Ok_0),
        v.len() <= i32::MAX,
        !lists_properties(writing) ==> v.len() == 0,
        forall|k: int| 0 <= k < v.len() ==> fproperty_kept(reading, writing, #[trigger] v[k]),
    ensures
        parse_loaded_properties(reading, bytes, pos) == Ok::<(Seq<FPropertyView>, u64), Error>(
            (v, (pos + ser_loaded_properties(writing, v)->Ok_0.len()) as u64),
        ),
{
    lemma_enc_dec();
    if lists_properties(writing) {
        let f = fproperty_reader(reading, bytes);
        let g = fproperty_writer(writing);
        let list = ser_all(g, v)->Ok_0;
        lemma_has_at_concat(bytes, pos as int, enc_i32(v.len() as i32), list);
        assert forall|k: int, p: u64|
            #![trigger g(v[k]), f(p)]
            0 <= k < v.len() && g(v[k]) is Ok && has_at(bytes, p as int, g(v[k])->Ok_0) implies f(
                p,
            ) == Ok::<(FPropertyView, u64), Error>((v[k], (p + g(v[k])->Ok_0.len()) as u64)) by {
            assert(fproperty_kept(reading, writing, v[k]));
            lemma_fproperty_round_trip(reading, writing, bytes, p, v[k]);
        }
        lemma_from_round_trip(f, g, bytes, (pos + 4) as u64, v, 0, Seq::empty());
        assert(Seq::<FPropertyView>::empty() + v.subrange(0, v.len() as int) =~= v);
    } else {
        assert(v =~= Seq::<FPropertyView>::empty());
    }
}

/// What a struct export stores before its bytecode is read back as it was
/// written.
#[verifier::rlimit(60)]
pub proof fn lemma_struct_layout_round_trip(
    reading: Env,
    writing: Env,
    bytes: Seq<u8>,
    pos: u64,
    v: StructExportView,
)
    requires
        paired(reading, writing),
        bytes.len() <= u64::MAX,
        ser_struct_layout(writing, v) is Ok,
        has_at(bytes, pos as int, ser_struct_layout(writing, v)->Ok_0),
        struct_layout_kept(reading, writing, v),
    ensures
        parse_struct_layout(reading, bytes, pos, v.normal_export.base_export) == Ok::<
            (StructLayout, u64),
            Error,
        >(
            (
                StructLayout {
                    normal_export: v.normal_export,
                    field: v.field,
                    super_struct: v.super_struct,
                    children: v.children,
                    loaded_properties: v.loaded_properties,
                },
                (pos + ser_struct_layout(writing, v)->Ok_0.len()) as u64,
            ),
        ),
{
    lemma_enc_dec();
    lemma_ser_links(v.children);
    let c1 = ser_normal_export(writing, v.normal_export)->Ok_0;
    let c2 = enc_i32(0);
    let c3 = ser_ufield(writing, v.field)->Ok_0;
    let c4 = enc_i32(v.super_struct.index);
    let c5 = enc_i32(v.children.len() as i32);
    let c6 = ser_links(v.children);
    let c7 = ser_loaded_properties(writing, v.loaded_properties)->Ok_0;
    lemma_has_at_concat(bytes, pos as int, c1 + c2 + c3 + c4 + c5 + c6, c7);
    lemma_has_at_concat(bytes, pos as int, c1 + c2 + c3 + c4 + c5, c6);
    lemma_has_at_concat(bytes, pos as int, c1 + c2 + c3 + c4, c5);
    lemma_has_at_concat(bytes, pos as int, c1 + c2 + c3, c4);
    lemma_has_at_concat(bytes, pos as int, c1 + c2, c3);
    lemma_has_at_concat(bytes, pos as int, c1, c2);
    lemma_normal_export_round_trip(reading, writing, bytes, pos, v.normal_export);
    let p2 = (pos + c1.len() + 4) as u64;
    lemma_ufield_round_trip(reading, writing, bytes, p2, v.field);
    let p5 = (p2 + c3.len() + 8) as u64;
    lemma_links_round_trip(bytes, p5, v.children);
    let p6 = (p5 + c6.len()) as u64;
    lemma_loaded_properties_round_trip(reading, writing, bytes, p6, v.loaded_properties);
}

/// The expressions from index `i` on that were written are read back
/// behind the expressions `acc`, where the declared size is the number of
/// their bytes counted from `start`.
pub proof fn lemma_bytecode_from(
    bytes: Seq<u8>,
    pos: u64,
    start: u64,
    size: i32,
    code: Seq<KismetExpression>,
    i: nat,
    acc: Seq<KismetExpression>,
)
    requires
        bytes.len() <= u64::MAX,
        i <= code.len(),
        start <= pos,
        has_at(bytes, pos as int, ser_from(expression_writer(), code, i, Seq::<u8>::empty())->Ok_0),
        size >= 0,
        size == pos - start + ser_from(
            expression_writer(),
            code,
            i,
            Seq::<u8>::empty(),
        )->Ok_0.len(),
    ensures
        parse_bytecode(bytes, pos, start, size, acc) == Ok::<(Seq<KismetExpression>, u64), Error>(
            (acc + code.subrange(i as int, code.len() as int), (start + size) as u64),
        ),
    decreases code.len() - i,
{
    let g = expression_writer();
    let none = Seq::<u8>::empty();
    lemma_ser_expressions_from(code, i, none);
    if i < code.len() {
        let e = code[i as int];
        let c = ser_expression(e);
        lemma_code_size_bound(e);
        lemma_ser_from_shift(g, code, i + 1, none + c);
        lemma_ser_expressions_from(code, i + 1, none);
        let rest = ser_from(g, code, i + 1, none)->Ok_0;
        assert(none + c =~= c);
        lemma_has_at_concat(bytes, pos as int, c, rest);
        lemma_expression_round_trip(bytes, pos, e);
        lemma_bytecode_from(bytes, (pos + c.len()) as u64, start, size, code, i + 1, acc.push(e));
        assert(acc.push(e) + code.subrange(i as int + 1, code.len() as int) =~= acc
            + code.subrange(i as int, code.len() as int));
    } else {
        assert(acc + code.subrange(i as int, code.len() as int) =~= acc);
    }
}

/// A struct export with decoded bytecode that was written is read back
/// with the same expressions: from engine version [`VER_UE4_16`] on, where
/// its layout is read back and the bytes of its expressions fit the
/// stored size. The two sizes on disk are the size of the expressions in
/// memory and the number of their bytes, so the export that is read back
/// holds the size of its expressions in memory, whatever size the export
/// that was written held.
#[verifier::rlimit(60)]
pub proof fn lemma_struct_export_decoded_round_trip(
    reading: Env,
    writing: Env,
    bytes: Seq<u8>,
    pos: u64,
    v: StructExportView,
)
    requires
        paired(reading, writing),
        bytes.len() <= u64::MAX,
        reading.engine_version >= VER_UE4_16,
        ser_struct_export(writing, v) is Ok,
        has_at(bytes, pos as int, ser_struct_export(writing, v)->Ok_0),
        struct_layout_kept(reading, writing, v),
        v.script_bytecode is Some,
        v.script_bytecode_raw is None,
        ser_expressions(v.script_bytecode->Some_0).len() <= i32::MAX,
    ensures
        parse_struct_export(reading, bytes, pos, v.normal_export.base_export) == Ok::<
            (StructExportView, u64),
            Error,
        >(
            (
                StructExportView {
                    script_bytecode_size: total_code_size(v.script_bytecode->Some_0) as i32,
                    ..v
                },
                (pos + ser_struct_export(writing, v)->Ok_0.len()) as u64,
            ),
        ),
        ser_struct_code(v)->Ok_0 == enc_i32(total_code_size(v.script_bytecode->Some_0) as i32)
            + enc_i32(ser_expressions(v.script_bytecode->Some_0).len() as i32) + ser_expressions(
            v.script_bytecode->Some_0,
        ),
{
    lemma_enc_dec();
    let code = v.script_bytecode->Some_0;
    let layout = ser_struct_layout(writing, v)->Ok_0;
    let list = ser_expressions(code);
    let c1 = enc_i32(total_code_size(code) as i32);
    let c2 = enc_i32(list.len() as i32);
    lemma_has_at_concat(bytes, pos as int, layout, c1 + c2 + list);
    let p1 = (pos + layout.len()) as u64;
    lemma_has_at_concat(bytes, p1 as int, c1 + c2, list);
    lemma_has_at_concat(bytes, p1 as int, c1, c2);
    lemma_struct_layout_round_trip(reading, writing, bytes, pos, v);
    let start = (p1 + 8) as u64;
    lemma_bytecode_from(bytes, start, start, list.len() as i32, code, 0, Seq::empty());
    assert(Seq::<KismetExpression>::empty() + code.subrange(0, code.len() as int) =~= code);
}

/// A struct export with raw bytecode that was written is read back with
/// the same raw bytes, where the written bytes are not decoded: before
/// engine version [`VER_UE4_16`], or where decoding them fails. Its layout
/// must be read back and the number of its raw bytes must fit the stored
/// size.
#[verifier::rlimit(60)]
pub proof fn lemma_struct_export_raw_round_trip(
    reading: Env,
    writing: Env,
    bytes: Seq<u8>,
    pos: u64,
    v: StructExportView,
)
    requires
        paired(reading, writing),
        bytes.len() <= u64::MAX,
        ser_struct_export(writing, v) is Ok,
        has_at(bytes, pos as int, ser_struct_export(writing, v)->Ok_0),
        struct_layout_kept(reading, writing, v),
        v.script_bytecode is None,
        v.script_bytecode_raw is Some,
        v.script_bytecode_raw->Some_0.len() <= i32::MAX,
        reading.engine_version < VER_UE4_16 || parse_bytecode(
            bytes,
            (pos + ser_struct_layout(writing, v)->Ok_0.len() + 8) as u64,
            (pos + ser_struct_layout(writing, v)->Ok_0.len() + 8) as u64,
            v.script_bytecode_raw->Some_0.len() as i32,
            Seq::empty(),
        ) is Err,
    ensures
        parse_struct_export(reading, bytes, pos, v.normal_export.base_export) == Ok::<
            (StructExportView, u64),
            Error,
        >((v, (pos + ser_struct_export(writing, v)->Ok_0.len()) as u64)),
{
    lemma_enc_dec();
    let raw = v.script_bytecode_raw->Some_0;
    let layout = ser_struct_layout(writing, v)->Ok_0;
    let c1 = enc_i32(v.script_bytecode_size);
    let c2 = enc_i32(raw.len() as i32);
    lemma_has_at_concat(bytes, pos as int, layout, c1 + c2 + raw);
    let p1 = (pos + layout.len()) as u64;
    lemma_has_at_concat(bytes, p1 as int, c1 + c2, raw);
    lemma_has_at_concat(bytes, p1 as int, c1, c2);
    lemma_struct_layout_round_trip(reading, writing, bytes, pos, v);
}

impl StructExport {
    /// How the bytecode is held.
    pub fn bytecode_mode(&self) -> (mode: BytecodeMode)
        ensures
            mode == (if self.script_bytecode is Some {
                BytecodeMode::Decoded
            } else {
                BytecodeMode::Raw
            }),
    {
        match self.script_bytecode {
            Some(_) => BytecodeMode::Decoded,
            None => BytecodeMode::Raw,
        }
    }

    /// Reads the descriptors of the properties, where they are listed.
    #[verifier::loop_isolation(false)]
    fn read_loaded_properties<Reader: AssetReader>(asset: &mut Reader) -> (r: Result<
        Vec<FProperty>,
        Error,
    >)
        ensures
            final(asset).bytes() == old(asset).bytes(),
            final(asset).env() == old(asset).env(),
            yields_deep(
                r,
                final(asset).pos(),
                parse_loaded_properties(old(asset).env(), old(asset).bytes(), old(asset).pos()),
            ),
    {
        let ghost env = asset.env();
        let ghost bytes = asset.bytes();
        let mut props: Vec<FProperty> = Vec::new();
        assert(props.deep_view() =~= Seq::<FPropertyView>::empty());
        let guid = FCoreObjectVersion::guid();
        if asset.get_custom_version(&guid).version >= FCoreObjectVersion::F_PROPERTIES {
            let num_props = match asset.read_i32() {
                Ok(v) => v,
                Err(e) => return Err(e),
            };
            let count = #[verifier::truncate] (num_props as usize);
            let ghost first = asset.pos();
            let ghost f = fproperty_reader(env, bytes);
            let mut i: usize = 0;
            while i < count
                invariant
                    i <= count,
                    asset.bytes() == bytes,
                    asset.env() == env,
                    parse_many(f, first, count as nat) == parse_from(
                        f,
                        asset.pos(),
                        (count - i) as nat,
                        props.deep_view(),
                    ),
                decreases count - i,
            {
                let ghost before = props.deep_view();
                let prop = match FProperty::new(asset) {
                    Ok(v) => v,
                    Err(e) => return Err(e),
                };
                props.push(prop);
                assert(props.deep_view() =~= before.push(prop.deep_view()));
                i = i + 1;
            }
        }
        Ok(props)
    }

    /// Reads the expressions of stored bytecode: one after another, as
    /// long as fewer than `storage_size` bytes lie between `start_offset`
    /// and the position.
    #[verifier::loop_isolation(false)]
    pub fn read_bytecode<Reader: AssetReader>(
        asset: &mut Reader,
        start_offset: u64,
        storage_size: i32,
    ) -> (r: Result<Vec<KismetExpression>, Error>)
        ensures
            final(asset).bytes() == old(asset).bytes(),
            final(asset).env() == old(asset).env(),
            yields_view(
                r,
                final(asset).pos(),
                parse_bytecode(
                    old(asset).bytes(),
                    old(asset).pos(),
                    start_offset,
                    storage_size,
                    Seq::empty(),
                ),
            ),
    {
        let ghost bytes = asset.bytes();
        let ghost start = asset.pos();
        let mut code: Vec<KismetExpression> = Vec::new();
        proof {
            asset.lemma_bounded();
        }
        let storage_end: u64 = #[verifier::truncate] (storage_size as u64);
        while asset.position().wrapping_sub(start_offset) < storage_end
            invariant
                asset.bytes() == bytes,
                asset.env() == old(asset).env(),
                parse_bytecode(bytes, start, start_offset, storage_size, Seq::empty())
                    == parse_bytecode(bytes, asset.pos(), start_offset, storage_size, code@),
            decreases u64::MAX - asset.pos(),
        {
            proof {
                lemma_expression_advances(bytes, asset.pos());
            }
            let expression = match KismetExpression::new(asset) {
                Ok(v) => v,
                Err(e) => return Err(e),
            };
            code.push(expression);
        }
        Ok(code)
    }

    /// Reads what a struct export stores before its bytecode.
    fn read_layout<Reader: AssetReader>(base: &BaseExport, asset: &mut Reader) -> (r: Result<
        (NormalExport, UField, PackageIndex, Vec<PackageIndex>, Vec<FProperty>),
        Error,
    >)
        ensures
            final(asset).bytes() == old(asset).bytes(),
            final(asset).env() == old(asset).env(),
            match parse_struct_layout(
                old(asset).env(),
                old(asset).bytes(),
                old(asset).pos(),
                base.deep_view(),
            ) {
                Ok((layout, end)) => r matches Ok(found) && final(asset).pos() == end
                    && found.0.deep_view() == layout.normal_export && found.1 == layout.field
                    && found.2 == layout.super_struct && found.3@ == layout.children
                    && found.4.deep_view() == layout.loaded_properties,
                Err(e) => r matches Err(found) && found == e,
            },
    {
        let normal_export = match NormalExport::from_base(base, asset) {
            Ok(v) => v,
            Err(e) => return Err(e),
        };
        match asset.read_i32() {
            Ok(_) => {},
            Err(e) => return Err(e),
        }
        let field = match UField::new(asset) {
            Ok(v) => v,
            Err(e) => return Err(e),
        };
        let super_struct = match asset.read_i32() {
            Ok(v) => v,
            Err(e) => return Err(e),
        };
        let num_index_entries = match asset.read_i32() {
            Ok(v) => v,
            Err(e) => return Err(e),
        };
        let children = match read_link_list(
            asset,
            #[verifier::truncate] (num_index_entries as usize),
        ) {
            Ok(v) => v,
            Err(e) => return Err(e),
        };
        let loaded_properties = match StructExport::read_loaded_properties(asset) {
            Ok(v) => v,
            Err(e) => return Err(e),
        };
        Ok((normal_export, field, PackageIndex::new(super_struct), children, loaded_properties))
    }

    /// Reads a struct export. Its bytecode is decoded from engine version
    /// [`VER_UE4_16`] on; where decoding fails, the bytecode is kept raw.
    pub fn from_base<Reader: AssetReader>(base: &BaseExport, asset: &mut Reader) -> (r: Result<
        StructExport,
        Error,
    >)
        ensures
            final(asset).bytes() == old(asset).bytes(),
            final(asset).env() == old(asset).env(),
            yields_deep(
                r,
                final(asset).pos(),
                parse_struct_export(
                    old(asset).env(),
                    old(asset).bytes(),
                    old(asset).pos(),
                    base.deep_view(),
                ),
            ),
    {
        let (normal_export, field, super_struct, children, loaded_properties) =
            match StructExport::read_layout(base, asset) {
            Ok(v) => v,
            Err(e) => return Err(e),
        };
        let script_bytecode_size = match asset.read_i32() {
            Ok(v) => v,
            Err(e) => return Err(e),
        };
        let script_storage_size = match asset.read_i32() {
            Ok(v) => v,
            Err(e) => return Err(e),
        };
        let start_offset = asset.position();
        let mut script_bytecode: Option<Vec<KismetExpression>> = None;
        if asset.get_engine_version() >= VER_UE4_16 {
            script_bytecode =
            match StructExport::read_bytecode(asset, start_offset, script_storage_size) {
                Ok(code) => Some(code),
                Err(_) => None,
            };
        }
        let script_bytecode_raw = match &script_bytecode {
            Some(_) => None,
            None => {
                let _ = asset.seek(SeekFrom::Start(start_offset));
                match asset.read_exact(#[verifier::truncate] (script_storage_size as usize)) {
                    Ok(data) => Some(data),
                    Err(e) => return Err(e),
                }
            },
        };
        Ok(
            StructExport {
                normal_export,
                field,
                super_struct,
                children,
                loaded_properties,
                script_bytecode,
                script_bytecode_size,
                script_bytecode_raw,
            },
        )
    }

    /// Writes the descriptors of the properties, where they are listed.
    #[verifier::loop_isolation(false)]
    fn write_loaded_properties<Writer: AssetWriter>(&self, asset: &mut Writer) -> (r: Result<
        (),
        Error,
    >)
        ensures
            final(asset).env() == old(asset).env(),
            emitted_checked(
                r,
                (),
                old(asset).bytes(),
                old(asset).pos(),
                final(asset).bytes(),
                final(asset).pos(),
                ser_loaded_properties(old(asset).env(), self.loaded_properties.deep_view()),
            ),
    {
        let ghost env = asset.env();
        let ghost origin = asset.bytes();
        let ghost start = asset.pos();
        let ghost none = Seq::<u8>::empty();
        let guid = FCoreObjectVersion::guid();
        if asset.get_custom_version(&guid).version >= FCoreObjectVersion::F_PROPERTIES {
            let ghost g = fproperty_writer(env);
            let ghost items = self.loaded_properties.deep_view();
            let count = self.loaded_properties.len();
            let ghost head = enc_i32(#[verifier::truncate] (count as i32));
            proof {
                lemma_ser_from_extends(g, items, 0, none);
                lemma_enc_dec();
            }
            let first = asset.write_i32(#[verifier::truncate] (count as i32));
            proof {
                lemma_emit(
                    first,
                    origin,
                    start,
                    none,
                    head,
                    origin,
                    start,
                    asset.bytes(),
                    asset.pos(),
                );
                assert(none + head =~= head);
            }
            if let Err(e) = first {
                return Err(e);
            }
            let ghost mut list = none;
            let mut i: usize = 0;
            while i < count
                invariant
                    i <= count,
                    asset.env() == env,
                    asset.bytes() == write_at(origin, start as int, head + list),
                    asset.pos() == start + (head + list).len(),
                    fits(start, (head + list).len()),
                    ser_all(g, items) == ser_from(g, items, i as nat, list),
                decreases count - i,
            {
                let entry = &self.loaded_properties[i];
                assert(items[i as int] == entry.deep_view());
                let ghost b = asset.bytes();
                let ghost p = asset.pos();
                let one = FProperty::write(entry, asset);
                proof {
                    match ser_fproperty(env, entry.deep_view()) {
                        Ok(chunk) => {
                            lemma_emit_part(
                                one,
                                (),
                                origin,
                                start,
                                head + list,
                                chunk,
                                b,
                                p,
                                asset.bytes(),
                                asset.pos(),
                            );
                            assert(head + list + chunk =~= head + (list + chunk));
                            lemma_ser_from_extends(g, items, (i + 1) as nat, list + chunk);
                            if one is Ok {
                                list = list + chunk;
                            }
                        },
                        Err(e) => {},
                    }
                }
                if let Err(e) = one {
                    return Err(e);
                }
                i = i + 1;
            }
        }
        Ok(())
    }

    /// Writes what a struct export stores before its bytecode.
    #[verifier::rlimit(60)]
    fn write_layout<Writer: AssetWriter>(&self, asset: &mut Writer) -> (r: Result<(), Error>)
        ensures
            final(asset).env() == old(asset).env(),
            emitted_checked(
                r,
                (),
                old(asset).bytes(),
                old(asset).pos(),
                final(asset).bytes(),
                final(asset).pos(),
                ser_struct_layout(old(asset).env(), self.deep_view()),
            ),
    {
        let ghost env = asset.env();
        let ghost origin = asset.bytes();
        let ghost start = asset.pos();
        let ghost mut done = Seq::<u8>::empty();
        let ghost v = self.deep_view();
        let ghost b = asset.bytes();
        let ghost p = asset.pos();
        let ghost part = ser_normal_export(env, v.normal_export);
        let step = self.normal_export.write(asset);
        proof {
            if part is Ok {
                lemma_emit_part(
                    step,
                    (),
                    origin,
                    start,
                    done,
                    part->Ok_0,
                    b,
                    p,
                    asset.bytes(),
                    asset.pos(),
                );
                done = done + part->Ok_0;
            }
        }
        if let Err(e) = step {
            return Err(e);
        }
        let ghost b = asset.bytes();
        let ghost p = asset.pos();
        let ghost chunk = enc_i32(0);
        let step = asset.write_i32(0);
        proof {
            lemma_emit(step, origin, start, done, chunk, b, p, asset.bytes(), asset.pos());
            done = done + chunk;
        }
        if let Err(e) = step {
            return Err(e);
        }
        let ghost b = asset.bytes();
        let ghost p = asset.pos();
        let ghost part = ser_ufield(env, v.field);
        let step = self.field.write(asset);
        proof {
            if part is Ok {
                lemma_emit(step, origin, start, done, part->Ok_0, b, p, asset.bytes(), asset.pos());
                done = done + part->Ok_0;
            }
        }
        if let Err(e) = step {
            return Err(e);
        }
        let ghost b = asset.bytes();
        let ghost p = asset.pos();
        let ghost chunk = enc_i32(self.super_struct.index);
        let step = asset.write_i32(self.super_struct.index);
        proof {
            lemma_emit(step, origin, start, done, chunk, b, p, asset.bytes(), asset.pos());
            done = done + chunk;
        }
        if let Err(e) = step {
            return Err(e);
        }
        let ghost b = asset.bytes();
        let ghost p = asset.pos();
        let ghost chunk = enc_i32(self.children@.len() as i32);
        let step = asset.write_i32(#[verifier::truncate] (self.children.len() as i32));
        proof {
            lemma_emit(step, origin, start, done, chunk, b, p, asset.bytes(), asset.pos());
            done = done + chunk;
        }
        if let Err(e) = step {
            return Err(e);
        }
        let ghost b = asset.bytes();
        let ghost p = asset.pos();
        let ghost chunk = ser_links(self.children@);
        let step = write_link_list(asset, &self.children);
        proof {
            lemma_emit_part(step, (), origin, start, done, chunk, b, p, asset.bytes(), asset.pos());
            done = done + chunk;
        }
        if let Err(e) = step {
            return Err(e);
        }
        let ghost b = asset.bytes();
        let ghost p = asset.pos();
        let ghost part = ser_loaded_properties(env, v.loaded_properties);
        let step = self.write_loaded_properties(asset);
        proof {
            if part is Ok {
                lemma_emit_part(
                    step,
                    (),
                    origin,
                    start,
                    done,
                    part->Ok_0,
                    b,
                    p,
                    asset.bytes(),
                    asset.pos(),
                );
                done = done + part->Ok_0;
            }
        }
        if let Err(e) = step {
            return Err(e);
        }
        assert(done =~= ser_struct_layout(env, v)->Ok_0);
        Ok(())
    }

    /// Writes the bytecode of a struct export. For decoded bytecode two
    /// slots are written first, then the expressions, and then the slots
    /// are filled with the size in memory and the size on disk.
    #[verifier::loop_isolation(false)]
    #[verifier::rlimit(60)]
    fn write_code<Writer: AssetWriter>(&self, asset: &mut Writer) -> (r: Result<(), Error>)
        ensures
            final(asset).env() == old(asset).env(),
            emitted_checked(
                r,
                (),
                old(asset).bytes(),
                old(asset).pos(),
                final(asset).bytes(),
                final(asset).pos(),
                ser_struct_code(self.deep_view()),
            ),
    {
        let ghost origin = asset.bytes();
        let ghost start = asset.pos();
        let ghost none = Seq::<u8>::empty();
        proof {
            lemma_enc_dec();
        }
        if let Some(bytecode) = &self.script_bytecode {
            let ghost code = bytecode@;
            let ghost g = expression_writer();
            let ghost slot = enc_i32(0);
            proof {
                lemma_ser_expressions_from(code, 0, none);
                lemma_ser_from_extends(g, code, 0, none);
            }
            let len_offset_1 = asset.position();
            let first = asset.write_i32(0);
            proof {
                lemma_emit(
                    first,
                    origin,
                    start,
                    none,
                    slot,
                    origin,
                    start,
                    asset.bytes(),
                    asset.pos(),
                );
                assert(none + slot =~= slot);
            }
            if let Err(e) = first {
                return Err(e);
            }
            let len_offset_2 = asset.position();
            let ghost b = asset.bytes();
            let second = asset.write_i32(0);
            proof {
                lemma_emit(
                    second,
                    origin,
                    start,
                    slot,
                    slot,
                    b,
                    len_offset_2,
                    asset.bytes(),
                    asset.pos(),
                );
            }
            if let Err(e) = second {
                return Err(e);
            }
            let ghost head = slot + slot;
            let mut total_offset: u128 = 0;
            let begin = asset.position();
            let count = bytecode.len();
            let ghost mut list = none;
            let mut i: usize = 0;
            while i < count
                invariant
                    i <= count,
                    asset.env() == old(asset).env(),
                    asset.bytes() == write_at(origin, start as int, head + list),
                    asset.pos() == start + (head + list).len(),
                    fits(start, (head + list).len()),
                    ser_all(g, code) == ser_from(g, code, i as nat, list),
                    total_code_size(code) == code_from(code, i as nat, total_offset as nat),
                    total_offset <= 2 * list.len(),
                decreases count - i,
            {
                let expression = &bytecode[i];
                let ghost b = asset.bytes();
                let ghost p = asset.pos();
                let ghost chunk = ser_expression(*expression);
                let one = KismetExpression::write_sized(expression, asset);
                proof {
                    lemma_code_size_bound(*expression);
                    lemma_emit_part(
                        match one {
                            Ok(_) => Ok::<(), Error>(()),
                            Err(e) => Err::<(), Error>(e),
                        },
                        (),
                        origin, start, head + list, chunk, b, p, asset.bytes(), asset.pos(),
                    );
                    assert(head + list + chunk =~= head + (list + chunk));
                    lemma_ser_from_extends(g, code, (i + 1) as nat, list + chunk);
                }
                match one {
                    Ok(n) => {
                        total_offset = total_offset + n;
                        proof {
                            list = list + chunk;
                        }
                    },
                    Err(e) => return Err(e),
                }
                i = i + 1;
            }
            let end = asset.position();
            let total_len = end - begin;
            let _ = asset.seek(SeekFrom::Start(len_offset_1));
            let ghost patch_1 = enc_i32(total_offset as i32);
            let third = asset.write_i32(#[verifier::truncate] (total_offset as i32));
            proof {
                crate::stream::lemma_write_at_patch(
                    origin,
                    start as int,
                    slot,
                    slot + list,
                    patch_1,
                );
                assert(head + list =~= slot + (slot + list));
            }
            if let Err(e) = third {
                return Err(e);
            }
            let _ = asset.seek(SeekFrom::Start(len_offset_2));
            let ghost patch_2 = enc_i32(total_len as i32);
            let fourth = asset.write_i32(#[verifier::truncate] (total_len as i32));
            proof {
                lemma_write_at_patch_mid(origin, start as int, patch_1, slot, list, patch_2);
                assert(patch_1 + (slot + list) =~= patch_1 + slot + list);
            }
            if let Err(e) = fourth {
                return Err(e);
            }
            let _ = asset.seek(SeekFrom::Start(end));
            Ok(())
        } else {
            let ghost size = enc_i32(self.script_bytecode_size);
            let first = asset.write_i32(self.script_bytecode_size);
            proof {
                lemma_emit(
                    first,
                    origin,
                    start,
                    none,
                    size,
                    origin,
                    start,
                    asset.bytes(),
                    asset.pos(),
                );
                assert(none + size =~= size);
            }
            if let Err(e) = first {
                return Err(e);
            }
            let raw_bytecode = match &self.script_bytecode_raw {
                Some(raw) => raw,
                None => return Err(Error::NoData(NoDataError::Bytecode)),
            };
            let ghost count = enc_i32(raw_bytecode@.len() as i32);
            let ghost b = asset.bytes();
            let ghost p = asset.pos();
            let second = asset.write_i32(#[verifier::truncate] (raw_bytecode.len() as i32));
            proof {
                lemma_emit(second, origin, start, size, count, b, p, asset.bytes(), asset.pos());
            }
            if let Err(e) = second {
                return Err(e);
            }
            let ghost b = asset.bytes();
            let ghost p = asset.pos();
            let third = asset.write_all(raw_bytecode.as_slice());
            proof {
                lemma_emit(
                    third,
                    origin,
                    start,
                    size + count,
                    raw_bytecode@,
                    b,
                    p,
                    asset.bytes(),
                    asset.pos(),
                );
            }
            third
        }
    }

    /// Writes the struct export: its layout, then its bytecode.
    pub fn write<Writer: AssetWriter>(&self, asset: &mut Writer) -> (r: Result<(), Error>)
        ensures
            final(asset).env() == old(asset).env(),
            emitted_checked(
                r,
                (),
                old(asset).bytes(),
                old(asset).pos(),
                final(asset).bytes(),
                final(asset).pos(),
                ser_struct_export(old(asset).env(), self.deep_view()),
            ),
    {
        let ghost env = asset.env();
        let ghost origin = asset.bytes();
        let ghost start = asset.pos();
        let ghost none = Seq::<u8>::empty();
        let ghost layout = ser_struct_layout(env, self.deep_view());
        let ghost code = ser_struct_code(self.deep_view());
        let first = self.write_layout(asset);
        proof {
            if layout is Ok {
                lemma_emit_part(
                    first,
                    (),
                    origin,
                    start,
                    none,
                    layout->Ok_0,
                    origin,
                    start,
                    asset.bytes(),
                    asset.pos(),
                );
                assert(none + layout->Ok_0 =~= layout->Ok_0);
            }
        }
        if let Err(e) = first {
            return Err(e);
        }
        let ghost b = asset.bytes();
        let ghost p = asset.pos();
        let second = self.write_code(asset);
        proof {
            if code is Ok {
                lemma_emit_part(
                    second,
                    (),
                    origin,
                    start,
                    layout->Ok_0,
                    code->Ok_0,
                    b,
                    p,
                    asset.bytes(),
                    asset.pos(),
                );
            }
        }
        second
    }
}

/// What every struct export that is read stores before its bytecode can
/// be written, and is read back when it is. The export holds its bytecode
/// either as expressions or raw, and raw bytecode has no more bytes than
/// a size can declare.
pub proof fn lemma_struct_export_read_is_kept(
    env: Env,
    bytes: Seq<u8>,
    pos: u64,
    base: BaseExportView,
)
    requires
        bytes.len() <= isize::MAX,
        table_kept(env),
    ensures
        parse_struct_export(env, bytes, pos, base) matches Ok((v, _)) ==> {
            &&& struct_layout_kept(env, env, v)
            &&& ser_struct_layout(env, v) is Ok
            &&& v.normal_export.base_export == base
            &&& v.script_bytecode is Some <==> v.script_bytecode_raw is None
            &&& v.script_bytecode is Some ==> env.engine_version >= VER_UE4_16
            &&& v.script_bytecode_raw matches Some(raw) ==> raw.len() <= i32::MAX
        },
{
    if let Ok((v, _)) = parse_struct_export(env, bytes, pos, base) {
        lemma_properties_read_are_kept(env, bytes, pos, Seq::empty());
        let p1 = parse_normal_export(env, bytes, pos, base)->Ok_0.1;
        let p2 = parse_i32(bytes, p1)->Ok_0.1;
        let p3 = parse_ufield(env, bytes, p2)->Ok_0.1;
        let p4 = parse_i32(bytes, p3)->Ok_0.1;
        let count = parse_i32(bytes, p4)->Ok_0.0;
        let p5 = parse_i32(bytes, p4)->Ok_0.1;
        let f = link_reader(bytes);
        lemma_announced(count);
        lemma_parse_from_each(f, p5, announced(count), Seq::empty(), |x: PackageIndex| true);
        lemma_parse_from_advances(f, p5, announced(count), Seq::empty(), 4);
        if count < 0 {
            lemma_parse_from_within(f, p5, announced(count), Seq::empty(), bytes.len());
        }
        let p6 = parse_many(f, p5, announced(count))->Ok_0.1;
        if lists_properties(env) {
            let n = parse_i32(bytes, p6)->Ok_0.0;
            let q = parse_i32(bytes, p6)->Ok_0.1;
            let fd = fproperty_reader(env, bytes);
            let gd = fproperty_writer(env);
            let good = |d: FPropertyView| fproperty_kept(env, env, d) && gd(d) is Ok;
            assert forall|at: u64| (#[trigger] fd(at)) is Ok implies good(fd(at)->Ok_0.0) && at
                + 4 <= fd(at)->Ok_0.1 <= bytes.len() by {
                lemma_fproperty_read_is_kept(env, bytes, at);
            }
            lemma_announced(n);
            lemma_parse_from_each(fd, q, announced(n), Seq::empty(), good);
            lemma_parse_from_advances(fd, q, announced(n), Seq::empty(), 4);
            if n < 0 {
                lemma_parse_from_within(fd, q, announced(n), Seq::empty(), bytes.len());
            }
            assert forall|k: int| 0 <= k < v.loaded_properties.len() implies (#[trigger] gd(
                v.loaded_properties[k],
            )) is Ok && fproperty_kept(env, env, v.loaded_properties[k]) by {
                assert(good(v.loaded_properties[k]));
            }
            lemma_ser_from_total(gd, v.loaded_properties, 0, Seq::empty());
        }
        let p7 = parse_struct_layout(env, bytes, pos, base)->Ok_0.1;
        let p8 = parse_i32(bytes, p7)->Ok_0.1;
        let script_storage_size = parse_i32(bytes, p8)->Ok_0.0;
        lemma_announced(script_storage_size);
    }
}

} // verus!
