//! The data of one asset.

use crate::cursor_ext::{
    lemma_string_read_is_kept, lemma_string_round_trip, parse_string, ser_string, string_kept,
};
use crate::error::Error;
use crate::le::{enc_i32, enc_u32, lemma_enc_dec};
use crate::reader::asset_reader::AssetReader;
use crate::reader::asset_trait::{
    agreed, lemma_fname_read_is_kept_by, lemma_fname_round_trip, name_kept, paired, parse_fname,
    ser_fname, table_kept, Env,
};
use crate::reader::asset_writer::AssetWriter;
use crate::reader::lists::{
    counted, counted_items, i32_reader, lemma_i32s_round_trip, lemma_ser_i32s, read_i32_list,
    ser_i32s, write_i32_list,
};
use crate::stream::{
    emitted_checked, fits, has_at, lemma_emit, lemma_emit_part, lemma_from_round_trip,
    lemma_has_at_concat, lemma_parse_from_each, lemma_ser_from_extends, lemma_ser_from_total,
    parse_from, parse_i32, parse_many, parse_u32, ser_all, ser_from, write_at, yields_deep, Parsed,
};
use crate::unreal_types::{FName, FNameView};
use vstd::prelude::*;

verus! {

/// A tag of an asset: a name and a text.
#[derive(Clone, Debug, PartialEq, Eq, Hash)]
pub struct AssetTag {
    pub key: FName,
    pub value: Option<String>,
}

/// What an [`AssetTag`] stands for.
pub struct AssetTagView {
    pub key: FNameView,
    pub value: Option<Seq<char>>,
}

impl DeepView for AssetTag {
    type V = AssetTagView;

    open spec fn deep_view(&self) -> AssetTagView {
        AssetTagView { key: self.key.deep_view(), value: self.value.deep_view() }
    }
}

/// The tag at `pos`: its name and its text.
pub open spec fn parse_tag(env: Env, bytes: Seq<u8>, pos: u64) -> Parsed<AssetTagView> {
    match parse_fname(env, bytes, pos) {
        Err(e) => Err(e),
        Ok((key, p)) => match parse_string(bytes, p) {
            Err(e) => Err(e),
            Ok((value, q)) => Ok((AssetTagView { key, value }, q)),
        },
    }
}

/// The bytes of a tag on disk.
pub open spec fn ser_tag(env: Env, tag: AssetTagView) -> Result<Seq<u8>, Error> {
    match ser_fname(env, tag.key) {
        Err(e) => Err(e),
        Ok(key) => Ok(key + ser_string(tag.value)),
    }
}

/// Reading one tag, as a function of the position.
pub open spec fn tag_reader(env: Env, bytes: Seq<u8>) -> spec_fn(u64) -> Parsed<AssetTagView> {
    |p: u64| parse_tag(env, bytes, p)
}

/// Writing one tag, as a function of the tag.
pub open spec fn tag_writer(env: Env) -> spec_fn(AssetTagView) -> Result<Seq<u8>, Error> {
    |tag: AssetTagView| ser_tag(env, tag)
}

/// The data of one asset: the names that locate it, its tags, the chunks
/// that it lies in, and the flags of its package.
#[derive(Clone, Debug, PartialEq, Eq, Hash)]
pub struct AssetData {
    pub object_path: FName,
    pub package_path: FName,
    pub asset_class: FName,
    pub package_name: FName,
    pub asset_name: FName,
    pub tags_and_values: Vec<AssetTag>,
    pub chunk_ids: Vec<i32>,
    pub package_flags: u32,
}

/// What an [`AssetData`] stands for.
pub struct AssetDataView {
    pub object_path: FNameView,
    pub package_path: FNameView,
    pub asset_class: FNameView,
    pub package_name: FNameView,
    pub asset_name: FNameView,
    pub tags_and_values: Seq<AssetTagView>,
    pub chunk_ids: Seq<i32>,
    pub package_flags: u32,
}

impl DeepView for AssetData {
    type V = AssetDataView;

    open spec fn deep_view(&self) -> AssetDataView {
        AssetDataView {
            object_path: self.object_path.deep_view(),
            package_path: self.package_path.deep_view(),
            asset_class: self.asset_class.deep_view(),
            package_name: self.package_name.deep_view(),
            asset_name: self.asset_name.deep_view(),
            tags_and_values: self.tags_and_values.deep_view(),
            chunk_ids: self.chunk_ids@,
            package_flags: self.package_flags,
        }
    }
}

/// The five names that locate an asset.
pub struct AssetNames {
    pub object_path: FNameView,
    pub package_path: FNameView,
    pub asset_class: FNameView,
    pub package_name: FNameView,
    pub asset_name: FNameView,
}

/// The five names of an asset at `pos`.
pub open spec fn parse_asset_names(env: Env, bytes: Seq<u8>, pos: u64) -> Parsed<AssetNames> {
    match parse_fname(env, bytes, pos) {
        Err(e) => Err(e),
        Ok((object_path, p1)) =>
        match parse_fname(env, bytes, p1) {
            Err(e) => Err(e),
            Ok((package_path, p2)) =>
            match parse_fname(env, bytes, p2) {
                Err(e) => Err(e),
                Ok((asset_class, p3)) =>
                match parse_fname(env, bytes, p3) {
                    Err(e) => Err(e),
                    Ok((package_name, p4)) =>
                    match parse_fname(env, bytes, p4) {
                        Err(e) => Err(e),
                        Ok((asset_name, p5)) =>
                        Ok((AssetNames {
                            object_path,
                            package_path,
                            asset_class,
                            package_name,
                            asset_name,
                        }, p5)),
                    },
                },
            },
        },
    }
}

/// The data of an asset at `pos`: five names, the counted tags, the
/// counted chunks, and the flags. A negative count announces no items.
#[verifier::opaque]
pub open spec fn parse_asset_data(env: Env, bytes: Seq<u8>, pos: u64) -> Parsed<AssetDataView> {
    match parse_asset_names(env, bytes, pos) {
        Err(e) => Err(e),
        Ok((names, p1)) =>
        match parse_i32(bytes, p1) {
            Err(e) => Err(e),
            Ok((tag_count, p2)) =>
            match parse_many(tag_reader(env, bytes), p2, counted(tag_count)) {
                Err(e) => Err(e),
                Ok((tags_and_values, p3)) =>
                match parse_i32(bytes, p3) {
                    Err(e) => Err(e),
                    Ok((chunk_count, p4)) =>
                    match parse_many(i32_reader(bytes), p4, counted(chunk_count)) {
                        Err(e) => Err(e),
                        Ok((chunk_ids, p5)) =>
                        match parse_u32(bytes, p5) {
                            Err(e) => Err(e),
                            Ok((package_flags, p6)) =>
                            Ok((AssetDataView {
                                object_path: names.object_path,
                                package_path: names.package_path,
                                asset_class: names.asset_class,
                                package_name: names.package_name,
                                asset_name: names.asset_name,
                                tags_and_values,
                                chunk_ids,
                                package_flags,
                            }, p6)),
                        },
                    },
                },
            },
        },
    }
}

/// The bytes of the five names of an asset.
pub open spec fn ser_asset_names(env: Env, v: AssetDataView) -> Result<Seq<u8>, Error> {
    match ser_fname(env, v.object_path) {
        Err(e) => Err(e),
        Ok(c1) => match ser_fname(env, v.package_path) {
            Err(e) => Err(e),
            Ok(c2) => match ser_fname(env, v.asset_class) {
                Err(e) => Err(e),
                Ok(c3) => match ser_fname(env, v.package_name) {
                    Err(e) => Err(e),
                    Ok(c4) => match ser_fname(env, v.asset_name) {
                        Err(e) => Err(e),
                        Ok(c5) => Ok(c1 + c2 + c3 + c4 + c5),
                    },
                },
            },
        },
    }
}

/// The bytes of the data of an asset on disk.
#[verifier::opaque]
pub open spec fn ser_asset_data(env: Env, v: AssetDataView) -> Result<Seq<u8>, Error> {
    match ser_asset_names(env, v) {
        Err(e) => Err(e),
        Ok(names) => match ser_all(tag_writer(env), v.tags_and_values) {
            Err(e) => Err(e),
            Ok(tags) => Ok(
                names + enc_i32(v.tags_and_values.len() as i32) + tags + enc_i32(
                    v.chunk_ids.len() as i32,
                ) + ser_i32s(v.chunk_ids) + enc_u32(v.package_flags),
            ),
        },
    }
}

/// Whether a tag is read back as it was written.
pub open spec fn tag_kept(reading: Env, writing: Env, tag: AssetTagView) -> bool {
    name_kept(reading, writing, tag.key) && string_kept(tag.value)
}

/// A tag that was written is read back.
pub proof fn lemma_tag_round_trip(
    reading: Env,
    writing: Env,
    bytes: Seq<u8>,
    pos: u64,
    tag: AssetTagView,
)
    requires
        paired(reading, writing),
        bytes.len() <= u64::MAX,
        ser_tag(writing, tag) is Ok,
        has_at(bytes, pos as int, ser_tag(writing, tag)->Ok_0),
        tag_kept(reading, writing, tag),
    ensures
        parse_tag(reading, bytes, pos) == Ok::<(AssetTagView, u64), Error>(
            (tag, (pos + ser_tag(writing, tag)->Ok_0.len()) as u64),
        ),
{
    let key = ser_fname(writing, tag.key)->Ok_0;
    lemma_has_at_concat(bytes, pos as int, key, ser_string(tag.value));
    lemma_fname_round_trip(reading, writing, bytes, pos, tag.key);
    lemma_string_round_trip(bytes, (pos + key.len()) as u64, tag.value);
}

/// Whether the data of an asset is read back as it was written: its
/// names and tags are, and the numbers of its tags and chunks fit the
/// stored counts.
pub open spec fn asset_data_kept(reading: Env, writing: Env, v: AssetDataView) -> bool {
    &&& name_kept(reading, writing, v.object_path)
    &&& name_kept(reading, writing, v.package_path)
    &&& name_kept(reading, writing, v.asset_class)
    &&& name_kept(reading, writing, v.package_name)
    &&& name_kept(reading, writing, v.asset_name)
    &&& v.tags_and_values.len() <= i32::MAX
    &&& v.chunk_ids.len() <= i32::MAX
    &&& forall|k: int|
        0 <= k < v.tags_and_values.len() ==> tag_kept(
            reading,
            writing,
            #[trigger] v.tags_and_values[k],
        )
}

/// The five names of an asset that were written are read back.
proof fn lemma_asset_names_round_trip(
    reading: Env,
    writing: Env,
    bytes: Seq<u8>,
    pos: u64,
    v: AssetDataView,
)
    requires
        paired(reading, writing),
        bytes.len() <= u64::MAX,
        ser_asset_names(writing, v) is Ok,
        has_at(bytes, pos as int, ser_asset_names(writing, v)->Ok_0),
        asset_data_kept(reading, writing, v),
    ensures
        parse_asset_names(reading, bytes, pos) == Ok::<(AssetNames, u64), Error>(
            (
                AssetNames {
                    object_path: v.object_path,
                    package_path: v.package_path,
                    asset_class: v.asset_class,
                    package_name: v.package_name,
                    asset_name: v.asset_name,
                },
                (pos + ser_asset_names(writing, v)->Ok_0.len()) as u64,
            ),
        ),
{
    let c1 = ser_fname(writing, v.object_path)->Ok_0;
    let c2 = ser_fname(writing, v.package_path)->Ok_0;
    let c3 = ser_fname(writing, v.asset_class)->Ok_0;
    let c4 = ser_fname(writing, v.package_name)->Ok_0;
    let c5 = ser_fname(writing, v.asset_name)->Ok_0;
    lemma_has_at_concat(bytes, pos as int, c1 + c2 + c3 + c4, c5);
    lemma_has_at_concat(bytes, pos as int, c1 + c2 + c3, c4);
    lemma_has_at_concat(bytes, pos as int, c1 + c2, c3);
    lemma_has_at_concat(bytes, pos as int, c1, c2);
    lemma_fname_round_trip(reading, writing, bytes, pos, v.object_path);
    let p1 = (pos + c1.len()) as u64;
    lemma_fname_round_trip(reading, writing, bytes, p1, v.package_path);
    let p2 = (p1 + c2.len()) as u64;
    lemma_fname_round_trip(reading, writing, bytes, p2, v.asset_class);
    let p3 = (p2 + c3.len()) as u64;
    lemma_fname_round_trip(reading, writing, bytes, p3, v.package_name);
    let p4 = (p3 + c4.len()) as u64;
    lemma_fname_round_trip(reading, writing, bytes, p4, v.asset_name);
}

/// The data of an asset that was written is read back.
#[verifier::rlimit(60)]
pub proof fn lemma_asset_data_round_trip(
    reading: Env,
    writing: Env,
    bytes: Seq<u8>,
    pos: u64,
    v: AssetDataView,
)
    requires
        paired(reading, writing),
        bytes.len() <= u64::MAX,
        ser_asset_data(writing, v) is Ok,
        has_at(bytes, pos as int, ser_asset_data(writing, v)->Ok_0),
        asset_data_kept(reading, writing, v),
    ensures
        parse_asset_data(reading, bytes, pos) == Ok::<(AssetDataView, u64), Error>(
            (v, (pos + ser_asset_data(writing, v)->Ok_0.len()) as u64),
        ),
{
    reveal(parse_asset_data);
    reveal(ser_asset_data);
    lemma_enc_dec();
    lemma_ser_i32s(v.chunk_ids);
    let f = tag_reader(reading, bytes);
    let g = tag_writer(writing);
    let c1 = ser_asset_names(writing, v)->Ok_0;
    let c2 = enc_i32(v.tags_and_values.len() as i32);
    let c3 = ser_all(g, v.tags_and_values)->Ok_0;
    let c4 = enc_i32(v.chunk_ids.len() as i32);
    let c5 = ser_i32s(v.chunk_ids);
    let c6 = enc_u32(v.package_flags);
    lemma_has_at_concat(bytes, pos as int, c1 + c2 + c3 + c4 + c5, c6);
    lemma_has_at_concat(bytes, pos as int, c1 + c2 + c3 + c4, c5);
    lemma_has_at_concat(bytes, pos as int, c1 + c2 + c3, c4);
    lemma_has_at_concat(bytes, pos as int, c1 + c2, c3);
    lemma_has_at_concat(bytes, pos as int, c1, c2);
    lemma_asset_names_round_trip(reading, writing, bytes, pos, v);
    let p2 = (pos + c1.len() + 4) as u64;
    assert forall|k: int, p: u64|
        #![trigger g(v.tags_and_values[k]), f(p)]
        0 <= k < v.tags_and_values.len() && g(v.tags_and_values[k]) is Ok && has_at(
            bytes,
            p as int,
            g(v.tags_and_values[k])->Ok_0,
        ) implies f(p) == Ok::<(AssetTagView, u64), Error>(
        (v.tags_and_values[k], (p + g(v.tags_and_values[k])->Ok_0.len()) as u64),
    ) by {
        assert(tag_kept(reading, writing, v.tags_and_values[k]));
        lemma_tag_round_trip(reading, writing, bytes, p, v.tags_and_values[k]);
    }
    lemma_from_round_trip(f, g, bytes, p2, v.tags_and_values, 0, Seq::empty());
    assert(Seq::<AssetTagView>::empty() + v.tags_and_values.subrange(
        0,
        v.tags_and_values.len() as int,
    ) =~= v.tags_and_values);
    let p4 = (p2 + c3.len() + 4) as u64;
    lemma_i32s_round_trip(bytes, p4, v.chunk_ids);
}

/// Reads `count` tags.
#[verifier::loop_isolation(false)]
fn read_tags<Reader: AssetReader>(asset: &mut Reader, count: usize) -> (r: Result<
    Vec<AssetTag>,
    Error,
>)
    ensures
        final(asset).bytes() == old(asset).bytes(),
        final(asset).env() == old(asset).env(),
        yields_deep(
            r,
            final(asset).pos(),
            parse_many(
                tag_reader(old(asset).env(), old(asset).bytes()),
                old(asset).pos(),
                count as nat,
            ),
        ),
{
    let ghost env = asset.env();
    let ghost bytes = asset.bytes();
    let ghost start = asset.pos();
    let ghost f = tag_reader(env, bytes);
    let mut items: Vec<AssetTag> = Vec::new();
    assert(items.deep_view() =~= Seq::<AssetTagView>::empty());
    let mut i: usize = 0;
    while i < count
        invariant
            i <= count,
            asset.bytes() == bytes,
            asset.env() == env,
            parse_many(f, start, count as nat) == parse_from(
                f,
                asset.pos(),
                (count - i) as nat,
                items.deep_view(),
            ),
        decreases count - i,
    {
        let ghost before = items.deep_view();
        let item = match read_tag(asset) {
            Ok(item) => item,
            Err(e) => return Err(e),
        };
        items.push(item);
        assert(items.deep_view() =~= before.push(item.deep_view()));
        i = i + 1;
    }
    Ok(items)
}

/// Reads one tag.
fn read_tag<Reader: AssetReader>(asset: &mut Reader) -> (r: Result<AssetTag, Error>)
    ensures
        final(asset).bytes() == old(asset).bytes(),
        final(asset).env() == old(asset).env(),
        yields_deep(
            r,
            final(asset).pos(),
            parse_tag(old(asset).env(), old(asset).bytes(), old(asset).pos()),
        ),
{
    let key = match asset.read_fname() {
        Ok(v) => v,
        Err(e) => return Err(e),
    };
    let value = match asset.read_string() {
        Ok(v) => v,
        Err(e) => return Err(e),
    };
    Ok(AssetTag { key, value })
}

/// Writes one tag.
fn write_tag<Writer: AssetWriter>(asset: &mut Writer, tag: &AssetTag) -> (r: Result<(), Error>)
    ensures
        final(asset).env() == old(asset).env(),
        emitted_checked(
            r,
            (),
            old(asset).bytes(),
            old(asset).pos(),
            final(asset).bytes(),
            final(asset).pos(),
            ser_tag(old(asset).env(), tag.deep_view()),
        ),
{
    let ghost env = asset.env();
    let ghost origin = asset.bytes();
    let ghost start = asset.pos();
    let ghost mut done = Seq::<u8>::empty();
    let ghost b = asset.bytes();
    let ghost p = asset.pos();
    let ghost part = ser_fname(env, tag.key.deep_view());
    let step = asset.write_fname(&tag.key);
    proof {
        if part is Ok {
            lemma_emit(step, origin, start, done, part->Ok_0, b, p, asset.bytes(), asset.pos());
            done = done + part->Ok_0;
        }
    }
    if let Err(e) = step {
        return Err(e);
    }
    let ghost b = asset.bytes();
    let ghost p = asset.pos();
    let ghost chunk = ser_string(tag.value.deep_view());
    let step = asset.write_string(&tag.value);
    proof {
        lemma_emit(
            match step {
                Ok(_) => Ok(()),
                Err(e) => Err(e),
            },
            origin, start, done, chunk, b, p, asset.bytes(), asset.pos(),
        );
        done = done + chunk;
    }
    if let Err(e) = step {
        return Err(e);
    }
    assert(done =~= ser_tag(env, tag.deep_view())->Ok_0);
    Ok(())
}

/// Writes the tags of `items`.
#[verifier::loop_isolation(false)]
fn write_tags<Writer: AssetWriter>(asset: &mut Writer, items: &Vec<AssetTag>) -> (r: Result<
    (),
    Error,
>)
    ensures
        final(asset).env() == old(asset).env(),
        emitted_checked(
            r,
            (),
            old(asset).bytes(),
            old(asset).pos(),
            final(asset).bytes(),
            final(asset).pos(),
            ser_all(tag_writer(old(asset).env()), items.deep_view()),
        ),
{
    let ghost env = asset.env();
    let ghost origin = asset.bytes();
    let ghost start = asset.pos();
    let ghost none = Seq::<u8>::empty();
    let ghost g = tag_writer(env);
    let ghost views = items.deep_view();
    let count = items.len();
    let ghost mut list = none;
    let mut i: usize = 0;
    proof {
        lemma_ser_from_extends(g, views, 0, none);
    }
    while i < count
        invariant
            i <= count,
            asset.env() == env,
            asset.bytes() == write_at(origin, start as int, list),
            asset.pos() == start + list.len(),
            fits(start, list.len()),
            ser_all(g, views) == ser_from(g, views, i as nat, list),
        decreases count - i,
    {
        let entry = &items[i];
        assert(views[i as int] == entry.deep_view());
        let ghost b = asset.bytes();
        let ghost p = asset.pos();
        let one = write_tag(asset, entry);
        proof {
            match ser_tag(env, entry.deep_view()) {
                Ok(chunk) => {
                    lemma_emit_part(
                        one,
                        (),
                        origin,
                        start,
                        list,
                        chunk,
                        b,
                        p,
                        asset.bytes(),
                        asset.pos(),
                    );
                    lemma_ser_from_extends(g, views, (i + 1) as nat, list + chunk);
                    if one is Ok {
                        list = list + chunk;
                    }
                },
                Err(e) => {},
            }
        }
        if let Err(e) = one {
            return Err(e);
        }
        i = i + 1;
    }
    Ok(())
}

impl AssetData {
    /// Reads the data of an asset.
    pub fn new<Reader: AssetReader>(asset: &mut Reader) -> (r: Result<AssetData, Error>)
        ensures
            final(asset).bytes() == old(asset).bytes(),
            final(asset).env() == old(asset).env(),
            yields_deep(
                r,
                final(asset).pos(),
                parse_asset_data(old(asset).env(), old(asset).bytes(), old(asset).pos()),
            ),
    {
        proof {
            reveal(parse_asset_data);
        }
        let object_path = match asset.read_fname() {
            Ok(v) => v,
            Err(e) => return Err(e),
        };
        let package_path = match asset.read_fname() {
            Ok(v) => v,
            Err(e) => return Err(e),
        };
        let asset_class = match asset.read_fname() {
            Ok(v) => v,
            Err(e) => return Err(e),
        };
        let package_name = match asset.read_fname() {
            Ok(v) => v,
            Err(e) => return Err(e),
        };
        let asset_name = match asset.read_fname() {
            Ok(v) => v,
            Err(e) => return Err(e),
        };
        let tag_count = match asset.read_i32() {
            Ok(v) => v,
            Err(e) => return Err(e),
        };
        let tags_and_values = match read_tags(asset, counted_items(tag_count)) {
            Ok(v) => v,
            Err(e) => return Err(e),
        };
        let chunk_count = match asset.read_i32() {
            Ok(v) => v,
            Err(e) => return Err(e),
        };
        let chunk_ids = match read_i32_list(asset, counted_items(chunk_count)) {
            Ok(v) => v,
            Err(e) => return Err(e),
        };
        let package_flags = match asset.read_u32() {
            Ok(v) => v,
            Err(e) => return Err(e),
        };
        Ok(AssetData {
            object_path,
            package_path,
            asset_class,
            package_name,
            asset_name,
            tags_and_values,
            chunk_ids,
            package_flags,
        })
    }

    /// Writes the five names of the asset.
    fn write_names<Writer: AssetWriter>(&self, asset: &mut Writer) -> (r: Result<(), Error>)
        ensures
            final(asset).env() == old(asset).env(),
            emitted_checked(
                r,
                (),
                old(asset).bytes(),
                old(asset).pos(),
                final(asset).bytes(),
                final(asset).pos(),
                ser_asset_names(old(asset).env(), self.deep_view()),
            ),
    {
        let ghost env = asset.env();
        let ghost origin = asset.bytes();
        let ghost start = asset.pos();
        let ghost mut done = Seq::<u8>::empty();
        let ghost v = self.deep_view();
        let ghost b = asset.bytes();
        let ghost p = asset.pos();
        let ghost part = ser_fname(env, v.object_path);
        let step = asset.write_fname(&self.object_path);
        proof {
            if part is Ok {
                lemma_emit(step, origin, start, done, part->Ok_0, b, p, asset.bytes(), asset.pos());
                done = done + part->Ok_0;
            }
        }
        if let Err(e) = step {
            return Err(e);
        }
        let ghost b = asset.bytes();
        let ghost p = asset.pos();
        let ghost part = ser_fname(env, v.package_path);
        let step = asset.write_fname(&self.package_path);
        proof {
            if part is Ok {
                lemma_emit(step, origin, start, done, part->Ok_0, b, p, asset.bytes(), asset.pos());
                done = done + part->Ok_0;
            }
        }
        if let Err(e) = step {
            return Err(e);
        }
        let ghost b = asset.bytes();
        let ghost p = asset.pos();
        let ghost part = ser_fname(env, v.asset_class);
        let step = asset.write_fname(&self.asset_class);
        proof {
            if part is Ok {
                lemma_emit(step, origin, start, done, part->Ok_0, b, p, asset.bytes(), asset.pos());
                done = done + part->Ok_0;
            }
        }
        if let Err(e) = step {
            return Err(e);
        }
        let ghost b = asset.bytes();
        let ghost p = asset.pos();
        let ghost part = ser_fname(env, v.package_name);
        let step = asset.write_fname(&self.package_name);
        proof {
            if part is Ok {
                lemma_emit(step, origin, start, done, part->Ok_0, b, p, asset.bytes(), asset.pos());
                done = done + part->Ok_0;
            }
        }
        if let Err(e) = step {
            return Err(e);
        }
        let ghost b = asset.bytes();
        let ghost p = asset.pos();
        let ghost part = ser_fname(env, v.asset_name);
        let step = asset.write_fname(&self.asset_name);
        proof {
            if part is Ok {
                lemma_emit(step, origin, start, done, part->Ok_0, b, p, asset.bytes(), asset.pos());
                done = done + part->Ok_0;
            }
        }
        if let Err(e) = step {
            return Err(e);
        }
        assert(done =~= ser_asset_names(env, v)->Ok_0);
        Ok(())
    }

    /// Writes the data of the asset.
    #[verifier::rlimit(60)]
    pub fn write<Writer: AssetWriter>(&self, asset: &mut Writer) -> (r: Result<(), Error>)
        ensures
            final(asset).env() == old(asset).env(),
            emitted_checked(
                r,
                (),
                old(asset).bytes(),
                old(asset).pos(),
                final(asset).bytes(),
                final(asset).pos(),
                ser_asset_data(old(asset).env(), self.deep_view()),
            ),
    {
        proof {
            reveal(ser_asset_data);
        }
        let ghost env = asset.env();
        let ghost origin = asset.bytes();
        let ghost start = asset.pos();
        let ghost mut done = Seq::<u8>::empty();
        let ghost v = self.deep_view();
        let ghost b = asset.bytes();
        let ghost p = asset.pos();
        let ghost part = ser_asset_names(env, v);
        let step = self.write_names(asset);
        proof {
            if part is Ok {
                lemma_emit_part(
                    step,
                    (),
                    origin,
                    start,
                    done,
                    part->Ok_0,
                    b,
                    p,
                    asset.bytes(),
                    asset.pos(),
                );
                done = done + part->Ok_0;
            }
        }
        if let Err(e) = step {
            return Err(e);
        }
        let ghost b = asset.bytes();
        let ghost p = asset.pos();
        let ghost chunk = enc_i32(self.tags_and_values@.len() as i32);
        let step = asset.write_i32(#[verifier::truncate] (self.tags_and_values.len() as i32));
        proof {
            lemma_emit(step, origin, start, done, chunk, b, p, asset.bytes(), asset.pos());
            done = done + chunk;
        }
        if let Err(e) = step {
            return Err(e);
        }
        let ghost b = asset.bytes();
        let ghost p = asset.pos();
        let ghost part = ser_all(tag_writer(env), v.tags_and_values);
        let step = write_tags(asset, &self.tags_and_values);
        proof {
            if part is Ok {
                lemma_emit_part(
                    step,
                    (),
                    origin,
                    start,
                    done,
                    part->Ok_0,
                    b,
                    p,
                    asset.bytes(),
                    asset.pos(),
                );
                done = done + part->Ok_0;
            }
        }
        if let Err(e) = step {
            return Err(e);
        }
        let ghost b = asset.bytes();
        let ghost p = asset.pos();
        let ghost chunk = enc_i32(self.chunk_ids@.len() as i32);
        let step = asset.write_i32(#[verifier::truncate] (self.chunk_ids.len() as i32));
        proof {
            lemma_emit(step, origin, start, done, chunk, b, p, asset.bytes(), asset.pos());
            done = done + chunk;
        }
        if let Err(e) = step {
            return Err(e);
        }
        let ghost b = asset.bytes();
        let ghost p = asset.pos();
        let ghost chunk = ser_i32s(self.chunk_ids@);
        let step = write_i32_list(asset, &self.chunk_ids);
        proof {
            lemma_emit_part(step, (), origin, start, done, chunk, b, p, asset.bytes(), asset.pos());
            done = done + chunk;
        }
        if let Err(e) = step {
            return Err(e);
        }
        let ghost b = asset.bytes();
        let ghost p = asset.pos();
        let ghost chunk = enc_u32(self.package_flags);
        let step = asset.write_u32(self.package_flags);
        proof {
            lemma_emit(step, origin, start, done, chunk, b, p, asset.bytes(), asset.pos());
            done = done + chunk;
        }
        if let Err(e) = step {
            return Err(e);
        }
        assert(done =~= ser_asset_data(env, v)->Ok_0);
        Ok(())
    }
}

/// The five names of an asset that are read can be written by a writer
/// that agrees with the reader, and are read back when they are.
proof fn lemma_asset_names_read_are_kept(reading: Env, writing: Env, bytes: Seq<u8>, pos: u64)
    requires
        table_kept(reading),
        agreed(reading, writing),
    ensures
        parse_asset_names(reading, bytes, pos) matches Ok((names, _)) ==> {
            &&& name_kept(reading, writing, names.object_path)
            &&& name_kept(reading, writing, names.package_path)
            &&& name_kept(reading, writing, names.asset_class)
            &&& name_kept(reading, writing, names.package_name)
            &&& name_kept(reading, writing, names.asset_name)
            &&& ser_fname(writing, names.object_path) is Ok
            &&& ser_fname(writing, names.package_path) is Ok
            &&& ser_fname(writing, names.asset_class) is Ok
            &&& ser_fname(writing, names.package_name) is Ok
            &&& ser_fname(writing, names.asset_name) is Ok
        },
{
    if let Ok((names, _)) = parse_asset_names(reading, bytes, pos) {
        let p1 = parse_fname(reading, bytes, pos)->Ok_0.1;
        let p2 = parse_fname(reading, bytes, p1)->Ok_0.1;
        let p3 = parse_fname(reading, bytes, p2)->Ok_0.1;
        let p4 = parse_fname(reading, bytes, p3)->Ok_0.1;
        lemma_fname_read_is_kept_by(reading, writing, bytes, pos);
        lemma_fname_read_is_kept_by(reading, writing, bytes, p1);
        lemma_fname_read_is_kept_by(reading, writing, bytes, p2);
        lemma_fname_read_is_kept_by(reading, writing, bytes, p3);
        lemma_fname_read_is_kept_by(reading, writing, bytes, p4);
    }
}

/// Every data of an asset that is read can be written by a writer that
/// agrees with the reader, and is read back when it is.
pub proof fn lemma_asset_data_read_is_kept(
    reading: Env,
    writing: Env,
    bytes: Seq<u8>,
    pos: u64,
)
    requires
        table_kept(reading),
        agreed(reading, writing),
    ensures
        parse_asset_data(reading, bytes, pos) matches Ok((v, _)) ==> asset_data_kept(
            reading,
            writing,
            v,
        ) && ser_asset_data(writing, v) is Ok,
{
    reveal(parse_asset_data);
    reveal(ser_asset_data);
    if let Ok((v, _)) = parse_asset_data(reading, bytes, pos) {
        lemma_asset_names_read_are_kept(reading, writing, bytes, pos);
        let p1 = parse_asset_names(reading, bytes, pos)->Ok_0.1;
        let tag_count = parse_i32(bytes, p1)->Ok_0.0;
        let p2 = parse_i32(bytes, p1)->Ok_0.1;
        let f = tag_reader(reading, bytes);
        let g = tag_writer(writing);
        let good = |tag: AssetTagView| tag_kept(reading, writing, tag) && g(tag) is Ok;
        assert forall|at: u64| (#[trigger] f(at)) is Ok implies good(f(at)->Ok_0.0) by {
            lemma_fname_read_is_kept_by(reading, writing, bytes, at);
            lemma_string_read_is_kept(bytes, parse_fname(reading, bytes, at)->Ok_0.1);
        }
        lemma_parse_from_each(f, p2, counted(tag_count), Seq::empty(), good);
        let p3 = parse_many(f, p2, counted(tag_count))->Ok_0.1;
        let chunk_count = parse_i32(bytes, p3)->Ok_0.0;
        let p4 = parse_i32(bytes, p3)->Ok_0.1;
        lemma_parse_from_each(
            i32_reader(bytes),
            p4,
            counted(chunk_count),
            Seq::empty(),
            |x: i32| true,
        );
        assert forall|k: int| 0 <= k < v.tags_and_values.len() implies (#[trigger] g(
            v.tags_and_values[k],
        )) is Ok && tag_kept(reading, writing, v.tags_and_values[k]) by {
            assert(good(v.tags_and_values[k]));
        }
        lemma_ser_from_total(g, v.tags_and_values, 0, Seq::empty());
    }
}

} // verus!
