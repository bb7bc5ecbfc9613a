//! The export of a level.

use crate::cursor_ext::{
    lemma_string_read_is_kept, lemma_string_round_trip, parse_string, ser_string, string_kept,
};
use crate::error::Error;
use crate::exports::base_export::{BaseExport, BaseExportView};
use crate::exports::normal_export::{
    lemma_normal_export_round_trip, lemma_properties_read_are_kept, normal_export_kept,
    parse_normal_export, ser_normal_export, NormalExport, NormalExportView,
};
use crate::le::{enc_i32, enc_u64, enc_u8, lemma_enc_dec};
use crate::reader::asset_reader::AssetReader;
use crate::reader::asset_trait::{paired, table_kept, Env};
use crate::reader::asset_writer::AssetWriter;
use crate::reader::lists::{
    announced, i32_reader, i32_writer, lemma_announced, lemma_i32s_round_trip, lemma_ser_i32s,
    read_i32_list, ser_i32s, write_i32_list,
};
use crate::stream::{
    emitted_checked, has_at, lemma_emit, lemma_emit_part, lemma_has_at_concat,
    lemma_parse_from_advances, lemma_parse_from_each, lemma_parse_from_within, lemma_ser_from_shift,
    parse_i32, parse_i64, parse_many, parse_u64, ser_from, take, yields_deep, Parsed,
};
use crate::unreal_types::{NamespacedString, NamespacedStringView};
use vstd::prelude::*;

verus! {

/// A level: an ordinary export, followed by a list of indices, the
/// qualified type of the level, its flags, and further data that reaches
/// up to the byte before the next export.
#[derive(Clone, Debug, PartialEq, Eq)]
pub struct LevelExport {
    pub normal_export: NormalExport,
    pub index_data: Vec<i32>,
    pub level_type: NamespacedString,
    pub flags_probably: u64,
    pub misc_category_data: Vec<i32>,
}

/// What a [`LevelExport`] stands for.
pub struct LevelExportView {
    pub normal_export: NormalExportView,
    pub index_data: Seq<i32>,
    pub level_type: NamespacedStringView,
    pub flags_probably: u64,
    pub misc_category_data: Seq<i32>,
}

impl DeepView for LevelExport {
    type V = LevelExportView;

    open spec fn deep_view(&self) -> LevelExportView {
        LevelExportView {
            normal_export: self.normal_export.deep_view(),
            index_data: self.index_data@,
            level_type: self.level_type.deep_view(),
            flags_probably: self.flags_probably,
            misc_category_data: self.misc_category_data@,
        }
    }
}

/// The position of the last byte of an export that ends where the next
/// one starts at `next_starting`. For a next export at zero the position
/// wraps to the largest one.
pub open spec fn last_byte(next_starting: u64) -> u64 {
    if next_starting == 0 {
        u64::MAX
    } else {
        (next_starting - 1) as u64
    }
}

/// The 32-bit integers from `pos` on, as long as the position lies before
/// `limit`, behind the integers `acc` that were read before. The last
/// integer may reach past `limit`.
pub open spec fn parse_until(bytes: Seq<u8>, pos: u64, limit: u64, acc: Seq<i32>) -> Parsed<
    Seq<i32>,
>
    decreases
        (if pos < limit {
            limit - pos
        } else {
            0
        }),
{
    if pos < limit {
        match parse_i32(bytes, pos) {
            Err(e) => Err(e),
            Ok((v, p)) => if p > pos {
                parse_until(bytes, p, limit, acc.push(v))
            } else {
                Err(Error::eof())
            },
        }
    } else {
        Ok((acc, pos))
    }
}

/// The part of a level behind its properties, from `pos` on: a word that
/// is not kept, the counted indices, the namespace of the type, a word
/// that is not kept, the value of the type, eight bytes that are not kept,
/// the flags, the integers up to the last byte, and the last byte.
pub open spec fn parse_level_tail(
    bytes: Seq<u8>,
    pos: u64,
    normal_export: NormalExportView,
    next_starting: u64,
) -> Parsed<LevelExportView> {
    match parse_i32(bytes, pos) {
        Err(e) => Err(e),
        Ok((_, p1)) => match parse_i32(bytes, p1) {
            Err(e) => Err(e),
            Ok((count, p2)) => match parse_many(i32_reader(bytes), p2, announced(count)) {
                Err(e) => Err(e),
                Ok((index_data, p3)) => match parse_string(bytes, p3) {
                    Err(e) => Err(e),
                    Ok((namespace, p4)) => match parse_i32(bytes, p4) {
                        Err(e) => Err(e),
                        Ok((_, p5)) => match parse_string(bytes, p5) {
                            Err(e) => Err(e),
                            Ok((value, p6)) => match parse_i64(bytes, p6) {
                                Err(e) => Err(e),
                                Ok((_, p7)) => match parse_u64(bytes, p7) {
                                    Err(e) => Err(e),
                                    Ok((flags_probably, p8)) => match parse_until(
                                        bytes,
                                        p8,
                                        last_byte(next_starting),
                                        Seq::empty(),
                                    ) {
                                        Err(e) => Err(e),
                                        Ok((misc_category_data, p9)) => match take(bytes, p9, 1) {
                                            Err(e) => Err(e),
                                            Ok((_, end)) => Ok(
                                                (
                                                    LevelExportView {
                                                        normal_export,
                                                        index_data,
                                                        level_type: NamespacedStringView {
                                                            namespace,
                                                            value,
                                                        },
                                                        flags_probably,
                                                        misc_category_data,
                                                    },
                                                    end,
                                                ),
                                            ),
                                        },
                                    },
                                },
                            },
                        },
                    },
                },
            },
        },
    }
}

/// The level export at `pos`, where the next export starts at
/// `next_starting`.
pub open spec fn parse_level_export(
    env: Env,
    bytes: Seq<u8>,
    pos: u64,
    base: BaseExportView,
    next_starting: u64,
) -> Parsed<LevelExportView> {
    match parse_normal_export(env, bytes, pos, base) {
        Err(e) => Err(e),
        Ok((normal_export, p)) => parse_level_tail(bytes, p, normal_export, next_starting),
    }
}

/// The bytes of the part of a level behind its properties.
pub open spec fn ser_level_tail(v: LevelExportView) -> Seq<u8> {
    enc_i32(0) + enc_i32(v.index_data.len() as i32) + ser_i32s(v.index_data) + ser_string(
        v.level_type.namespace,
    ) + enc_i32(0) + ser_string(v.level_type.value) + enc_u64(0) + enc_u64(v.flags_probably)
        + ser_i32s(v.misc_category_data) + enc_u8(0)
}

/// The bytes of a level export on disk.
pub open spec fn ser_level_export(env: Env, v: LevelExportView) -> Result<Seq<u8>, Error> {
    match ser_normal_export(env, v.normal_export) {
        Err(e) => Err(e),
        Ok(normal) => Ok(normal + ser_level_tail(v)),
    }
}

/// The integers from index `i` on that were written are read back behind
/// the integers `acc`, where reading goes up to the place behind them.
pub proof fn lemma_until_from(bytes: Seq<u8>, pos: u64, items: Seq<i32>, i: nat, acc: Seq<i32>)
    requires
        bytes.len() <= u64::MAX,
        i <= items.len(),
        has_at(bytes, pos as int, ser_from(i32_writer(), items, i, Seq::<u8>::empty())->Ok_0),
    ensures
        parse_until(bytes, pos, (pos + 4 * (items.len() - i)) as u64, acc) == Ok::<
            (Seq<i32>, u64),
            Error,
        >(
            (
                acc + items.subrange(i as int, items.len() as int),
                (pos + 4 * (items.len() - i)) as u64,
            ),
        ),
    decreases items.len() - i,
{
    lemma_enc_dec();
    let g = i32_writer();
    let none = Seq::<u8>::empty();
    crate::reader::lists::lemma_ser_i32s_from(items, i, none);
    if i < items.len() {
        let c = enc_i32(items[i as int]);
        lemma_ser_from_shift(g, items, i + 1, none + c);
        crate::reader::lists::lemma_ser_i32s_from(items, i + 1, none);
        let rest = ser_from(g, items, i + 1, none)->Ok_0;
        assert(none + c =~= c);
        lemma_has_at_concat(bytes, pos as int, c, rest);
        lemma_until_from(bytes, (pos + 4) as u64, items, i + 1, acc.push(items[i as int]));
        assert(acc.push(items[i as int]) + items.subrange(i as int + 1, items.len() as int)
            =~= acc + items.subrange(i as int, items.len() as int));
    } else {
        assert(acc + items.subrange(i as int, items.len() as int) =~= acc);
    }
}

/// Whether a level export is read back as it was written: its ordinary
/// export is and has no extra bytes, the number of its indices fits the
/// stored count, and the two parts of its type are strings that are read
/// back.
pub open spec fn level_export_kept(reading: Env, writing: Env, v: LevelExportView) -> bool {
    &&& normal_export_kept(reading, writing, v.normal_export)
    &&& v.normal_export.extras.len() == 0
    &&& v.index_data.len() <= i32::MAX
    &&& string_kept(v.level_type.namespace)
    &&& string_kept(v.level_type.value)
}

/// The part of a level behind its properties that was written is read
/// back, where the next export starts behind it.
#[verifier::rlimit(40)]
pub proof fn lemma_level_tail_round_trip(
    bytes: Seq<u8>,
    pos: u64,
    v: LevelExportView,
)
    requires
        bytes.len() <= u64::MAX,
        has_at(bytes, pos as int, ser_level_tail(v)),
        v.index_data.len() <= i32::MAX,
        string_kept(v.level_type.namespace),
        string_kept(v.level_type.value),
    ensures
        parse_level_tail(
            bytes,
            pos,
            v.normal_export,
            (pos + ser_level_tail(v).len()) as u64,
        ) == Ok::<(LevelExportView, u64), Error>((v, (pos + ser_level_tail(v).len()) as u64)),
{
    lemma_enc_dec();
    crate::reader::lists::lemma_ser_i32s(v.index_data);
    crate::reader::lists::lemma_ser_i32s(v.misc_category_data);
    let c1 = enc_i32(0);
    let c2 = enc_i32(v.index_data.len() as i32);
    let c3 = ser_i32s(v.index_data);
    let c4 = ser_string(v.level_type.namespace);
    let c5 = enc_i32(0);
    let c6 = ser_string(v.level_type.value);
    let c7 = enc_u64(0);
    let c8 = enc_u64(v.flags_probably);
    let c9 = ser_i32s(v.misc_category_data);
    let c10 = enc_u8(0);
    lemma_has_at_concat(bytes, pos as int, c1 + c2 + c3 + c4 + c5 + c6 + c7 + c8 + c9, c10);
    lemma_has_at_concat(bytes, pos as int, c1 + c2 + c3 + c4 + c5 + c6 + c7 + c8, c9);
    lemma_has_at_concat(bytes, pos as int, c1 + c2 + c3 + c4 + c5 + c6 + c7, c8);
    lemma_has_at_concat(bytes, pos as int, c1 + c2 + c3 + c4 + c5 + c6, c7);
    lemma_has_at_concat(bytes, pos as int, c1 + c2 + c3 + c4 + c5, c6);
    lemma_has_at_concat(bytes, pos as int, c1 + c2 + c3 + c4, c5);
    lemma_has_at_concat(bytes, pos as int, c1 + c2 + c3, c4);
    lemma_has_at_concat(bytes, pos as int, c1 + c2, c3);
    lemma_has_at_concat(bytes, pos as int, c1, c2);
    let p2 = (pos + 8) as u64;
    lemma_i32s_round_trip(bytes, p2, v.index_data);
    let p3 = (p2 + c3.len()) as u64;
    lemma_string_round_trip(bytes, p3, v.level_type.namespace);
    let p5 = (p3 + c4.len() + 4) as u64;
    lemma_string_round_trip(bytes, p5, v.level_type.value);
    let p8 = (p5 + c6.len() + 16) as u64;
    lemma_until_from(bytes, p8, v.misc_category_data, 0, Seq::empty());
    assert(Seq::<i32>::empty() + v.misc_category_data.subrange(
        0,
        v.misc_category_data.len() as int,
    ) =~= v.misc_category_data);
}

/// A level export that was written is read back, where the next export
/// starts behind it.
pub proof fn lemma_level_export_round_trip(
    reading: Env,
    writing: Env,
    bytes: Seq<u8>,
    pos: u64,
    v: LevelExportView,
)
    requires
        paired(reading, writing),
        bytes.len() <= u64::MAX,
        ser_level_export(writing, v) is Ok,
        has_at(bytes, pos as int, ser_level_export(writing, v)->Ok_0),
        level_export_kept(reading, writing, v),
    ensures
        parse_level_export(
            reading,
            bytes,
            pos,
            v.normal_export.base_export,
            (pos + ser_level_export(writing, v)->Ok_0.len()) as u64,
        ) == Ok::<(LevelExportView, u64), Error>(
            (v, (pos + ser_level_export(writing, v)->Ok_0.len()) as u64),
        ),
{
    let normal = ser_normal_export(writing, v.normal_export)->Ok_0;
    lemma_has_at_concat(bytes, pos as int, normal, ser_level_tail(v));
    lemma_normal_export_round_trip(reading, writing, bytes, pos, v.normal_export);
    lemma_level_tail_round_trip(bytes, (pos + normal.len()) as u64, v);
}

impl LevelExport {
    /// Reads the 32-bit integers up to the last byte of the export.
    #[verifier::loop_isolation(false)]
    fn read_misc<Reader: AssetReader>(asset: &mut Reader, limit: u64) -> (r: Result<
        Vec<i32>,
        Error,
    >)
        ensures
            final(asset).bytes() == old(asset).bytes(),
            final(asset).env() == old(asset).env(),
            crate::stream::yields_view(
                r,
                final(asset).pos(),
                parse_until(old(asset).bytes(), old(asset).pos(), limit, Seq::empty()),
            ),
    {
        let ghost bytes = asset.bytes();
        let ghost start = asset.pos();
        let mut items: Vec<i32> = Vec::new();
        proof {
            asset.lemma_bounded();
        }
        while asset.position() < limit
            invariant
                asset.bytes() == bytes,
                asset.env() == old(asset).env(),
                parse_until(bytes, start, limit, Seq::empty()) == parse_until(
                    bytes,
                    asset.pos(),
                    limit,
                    items@,
                ),
            decreases
                (if asset.pos() < limit {
                    limit - asset.pos()
                } else {
                    0
                }),
        {
            let item = match asset.read_i32() {
                Ok(item) => item,
                Err(e) => return Err(e),
            };
            items.push(item);
        }
        Ok(items)
    }

    /// Reads a level export: an ordinary export without extra bytes, then
    /// what a level adds, up to the start of the next export.
    pub fn from_base<Reader: AssetReader>(
        unk: &BaseExport,
        asset: &mut Reader,
        next_starting: u64,
    ) -> (r: Result<LevelExport, Error>)
        ensures
            final(asset).bytes() == old(asset).bytes(),
            final(asset).env() == old(asset).env(),
            yields_deep(
                r,
                final(asset).pos(),
                parse_level_export(
                    old(asset).env(),
                    old(asset).bytes(),
                    old(asset).pos(),
                    unk.deep_view(),
                    next_starting,
                ),
            ),
    {
        let normal_export = match NormalExport::from_base(unk, asset) {
            Ok(v) => v,
            Err(e) => return Err(e),
        };
        match asset.read_i32() {
            Ok(_) => {},
            Err(e) => return Err(e),
        }
        let num_index_entries = match asset.read_i32() {
            Ok(v) => v,
            Err(e) => return Err(e),
        };
        let index_data = match read_i32_list(
            asset,
            #[verifier::truncate] (num_index_entries as usize),
        ) {
            Ok(v) => v,
            Err(e) => return Err(e),
        };
        let nms = match asset.read_string() {
            Ok(v) => v,
            Err(e) => return Err(e),
        };
        match asset.read_i32() {
            Ok(_) => {},
            Err(e) => return Err(e),
        }
        let val = match asset.read_string() {
            Ok(v) => v,
            Err(e) => return Err(e),
        };
        let level_type = NamespacedString::new(nms, val);
        match asset.read_i64() {
            Ok(_) => {},
            Err(e) => return Err(e),
        }
        let flags_probably = match asset.read_u64() {
            Ok(v) => v,
            Err(e) => return Err(e),
        };
        let misc_category_data = match LevelExport::read_misc(
            asset,
            next_starting.wrapping_sub(1),
        ) {
            Ok(v) => v,
            Err(e) => return Err(e),
        };
        match asset.read_exact(1) {
            Ok(_) => {},
            Err(e) => return Err(e),
        }
        Ok(
            LevelExport {
                normal_export,
                index_data,
                level_type,
                flags_probably,
                misc_category_data,
            },
        )
    }

    /// Reads a level export whose bookkeeping is given as that of an export
    /// of unknown kind; the same as [`LevelExport::from_base`].
    pub fn from_unk<Reader: AssetReader>(
        unk: &BaseExport,
        asset: &mut Reader,
        next_starting: u64,
    ) -> (r: Result<LevelExport, Error>)
        ensures
            final(asset).bytes() == old(asset).bytes(),
            final(asset).env() == old(asset).env(),
            yields_deep(
                r,
                final(asset).pos(),
                parse_level_export(
                    old(asset).env(),
                    old(asset).bytes(),
                    old(asset).pos(),
                    unk.deep_view(),
                    next_starting,
                ),
            ),
    {
        LevelExport::from_base(unk, asset, next_starting)
    }

    /// Writes the level: the ordinary export, then what a level adds.
    #[verifier::rlimit(80)]
    pub fn write<Writer: AssetWriter>(&self, asset: &mut Writer) -> (r: Result<(), Error>)
        ensures
            final(asset).env() == old(asset).env(),
            emitted_checked(
                r,
                (),
                old(asset).bytes(),
                old(asset).pos(),
                final(asset).bytes(),
                final(asset).pos(),
                ser_level_export(old(asset).env(), self.deep_view()),
            ),
    {
        let ghost env = asset.env();
        let ghost origin = asset.bytes();
        let ghost start = asset.pos();
        let ghost normal = ser_normal_export(env, self.normal_export.deep_view());
        let first = self.normal_export.write(asset);
        proof {
            if normal is Ok {
                lemma_emit_part(
                    first,
                    (),
                    origin,
                    start,
                    Seq::empty(),
                    normal->Ok_0,
                    origin,
                    start,
                    asset.bytes(),
                    asset.pos(),
                );
                assert(Seq::<u8>::empty() + normal->Ok_0 =~= normal->Ok_0);
            }
        }
        if let Err(e) = first {
            return Err(e);
        }
        let ghost mut done = normal->Ok_0;
        let ghost b = asset.bytes();
        let ghost p = asset.pos();
        let ghost chunk = enc_i32(0);
        let step = asset.write_i32(0);
        proof {
            lemma_emit(step, origin, start, done, chunk, b, p, asset.bytes(), asset.pos());
            done = done + chunk;
        }
        if let Err(e) = step {
            return Err(e);
        }
        let ghost b = asset.bytes();
        let ghost p = asset.pos();
        let ghost chunk = enc_i32(self.index_data@.len() as i32);
        let step = asset.write_i32(#[verifier::truncate] (self.index_data.len() as i32));
        proof {
            lemma_emit(step, origin, start, done, chunk, b, p, asset.bytes(), asset.pos());
            done = done + chunk;
        }
        if let Err(e) = step {
            return Err(e);
        }
        let ghost b = asset.bytes();
        let ghost p = asset.pos();
        let ghost chunk = ser_i32s(self.index_data@);
        let step = write_i32_list(asset, &self.index_data);
        proof {
            lemma_emit_part(step, (), origin, start, done, chunk, b, p, asset.bytes(), asset.pos());
            done = done + chunk;
        }
        if let Err(e) = step {
            return Err(e);
        }
        let ghost b = asset.bytes();
        let ghost p = asset.pos();
        let ghost chunk = ser_string(self.level_type.namespace.deep_view());
        let step = asset.write_string(&self.level_type.namespace);
        proof {
            lemma_emit(
                match step {
                    Ok(_) => Ok(()),
                    Err(e) => Err(e),
                },
                origin,
                start,
                done,
                chunk,
                b,
                p,
                asset.bytes(),
                asset.pos(),
            );
            done = done + chunk;
        }
        if let Err(e) = step {
            return Err(e);
        }
        let ghost b = asset.bytes();
        let ghost p = asset.pos();
        let ghost chunk = enc_i32(0);
        let step = asset.write_i32(0);
        proof {
            lemma_emit(step, origin, start, done, chunk, b, p, asset.bytes(), asset.pos());
            done = done + chunk;
        }
        if let Err(e) = step {
            return Err(e);
        }
        let ghost b = asset.bytes();
        let ghost p = asset.pos();
        let ghost chunk = ser_string(self.level_type.value.deep_view());
        let step = asset.write_string(&self.level_type.value);
        proof {
            lemma_emit(
                match step {
                    Ok(_) => Ok(()),
                    Err(e) => Err(e),
                },
                origin,
                start,
                done,
                chunk,
                b,
                p,
                asset.bytes(),
                asset.pos(),
            );
            done = done + chunk;
        }
        if let Err(e) = step {
            return Err(e);
        }
        let ghost b = asset.bytes();
        let ghost p = asset.pos();
        let ghost chunk = enc_u64(0);
        let step = asset.write_u64(0);
        proof {
            lemma_emit(step, origin, start, done, chunk, b, p, asset.bytes(), asset.pos());
            done = done + chunk;
        }
        if let Err(e) = step {
            return Err(e);
        }
        let ghost b = asset.bytes();
        let ghost p = asset.pos();
        let ghost chunk = enc_u64(self.flags_probably);
        let step = asset.write_u64(self.flags_probably);
        proof {
            lemma_emit(step, origin, start, done, chunk, b, p, asset.bytes(), asset.pos());
            done = done + chunk;
        }
        if let Err(e) = step {
            return Err(e);
        }
        let ghost b = asset.bytes();
        let ghost p = asset.pos();
        let ghost chunk = ser_i32s(self.misc_category_data@);
        let step = write_i32_list(asset, &self.misc_category_data);
        proof {
            lemma_emit_part(step, (), origin, start, done, chunk, b, p, asset.bytes(), asset.pos());
            done = done + chunk;
        }
        if let Err(e) = step {
            return Err(e);
        }
        let ghost b = asset.bytes();
        let ghost p = asset.pos();
        let ghost chunk = enc_u8(0);
        let step = asset.write_u8(0);
        proof {
            lemma_emit(step, origin, start, done, chunk, b, p, asset.bytes(), asset.pos());
            done = done + chunk;
        }
        if let Err(e) = step {
            return Err(e);
        }
        assert(done =~= normal->Ok_0 + ser_level_tail(self.deep_view()));
        Ok(())
    }
}

/// Every level export that is read can be written, and is read back when
/// it is.
pub proof fn lemma_level_export_read_is_kept(
    env: Env,
    bytes: Seq<u8>,
    pos: u64,
    base: BaseExportView,
    next_starting: u64,
)
    requires
        bytes.len() <= usize::MAX,
        table_kept(env),
    ensures
        parse_level_export(env, bytes, pos, base, next_starting) matches Ok((v, _))
            ==> level_export_kept(env, env, v) && ser_level_export(env, v) is Ok
            && v.normal_export.base_export == base,
{
    if let Ok((v, _)) = parse_level_export(env, bytes, pos, base, next_starting) {
        let p = parse_normal_export(env, bytes, pos, base)->Ok_0.1;
        lemma_properties_read_are_kept(env, bytes, pos, Seq::empty());
        let p1 = parse_i32(bytes, p)->Ok_0.1;
        let count = parse_i32(bytes, p1)->Ok_0.0;
        let p2 = parse_i32(bytes, p1)->Ok_0.1;
        let f = i32_reader(bytes);
        lemma_announced(count);
        lemma_parse_from_each(f, p2, announced(count), Seq::empty(), |x: i32| true);
        lemma_parse_from_advances(f, p2, announced(count), Seq::empty(), 4);
        if count < 0 {
            lemma_parse_from_within(f, p2, announced(count), Seq::empty(), bytes.len());
        }
        let p3 = parse_many(f, p2, announced(count))->Ok_0.1;
        lemma_string_read_is_kept(bytes, p3);
        let p4 = parse_string(bytes, p3)->Ok_0.1;
        let p5 = parse_i32(bytes, p4)->Ok_0.1;
        lemma_string_read_is_kept(bytes, p5);
    }
}

} // verus!
