//! The export of an ordinary object: a list of properties.

use crate::cursor_ext::none_name;
use crate::error::Error;
use crate::exports::base_export::{BaseExport, BaseExportView};
use crate::le::lemma_enc_dec;
use crate::properties::{
    lemma_property_of_monotone, lemma_property_read_is_kept, lemma_property_round_trip,
    parse_property, property_kept, ser_property, Property, PropertyView,
};
use crate::reader::asset_reader::AssetReader;
use crate::reader::asset_trait::{
    lemma_fname_advances, lemma_fname_read_is_kept, lemma_fname_round_trip, name_kept, paired,
    parse_fname, ser_fname, table_kept, Env,
};
use crate::reader::asset_writer::AssetWriter;
use crate::stream::{
    emitted_checked, fits, has_at, lemma_emit, lemma_has_at_concat, lemma_ser_from_extends,
    lemma_ser_from_shift, lemma_ser_from_total, parse_i32, ser_all, ser_from, take, write_at,
    yields_deep, Parsed,
};
use crate::unreal_types::{FName, FNameView};
use vstd::prelude::*;

verus! {

/// An ordinary object: its bookkeeping, its properties in the order in
/// which they are stored, and the bytes that follow them.
#[derive(Clone, Debug, PartialEq, Eq)]
pub struct NormalExport {
    pub base_export: BaseExport,
    pub extras: Vec<u8>,
    pub properties: Vec<Property>,
}

/// What a [`NormalExport`] stands for.
pub struct NormalExportView {
    pub base_export: BaseExportView,
    pub extras: Seq<u8>,
    pub properties: Seq<PropertyView>,
}

impl DeepView for NormalExport {
    type V = NormalExportView;

    open spec fn deep_view(&self) -> NormalExportView {
        NormalExportView {
            base_export: self.base_export.deep_view(),
            extras: self.extras@,
            properties: self.properties.deep_view(),
        }
    }
}

/// The properties from `pos` on, up to and with the name `None` that ends
/// them, behind the properties `acc` that were read before.
pub open spec fn parse_properties(
    env: Env,
    bytes: Seq<u8>,
    pos: u64,
    acc: Seq<PropertyView>,
) -> Parsed<Seq<PropertyView>>
    decreases u64::MAX - pos,
{
    match parse_property(env, bytes, pos, true) {
        Err(e) => Err(e),
        Ok((None, p)) => Ok((acc, p)),
        Ok((Some(v), p)) => if p > pos {
            parse_properties(env, bytes, p, acc.push(v))
        } else {
            Err(Error::eof())
        },
    }
}

/// Reading a property ends behind where it started.
pub proof fn lemma_property_advances(env: Env, bytes: Seq<u8>, pos: u64, include_header: bool)
    requires
        bytes.len() <= u64::MAX,
    ensures
        parse_property(env, bytes, pos, include_header) matches Ok((_, p)) ==> p > pos,
{
    lemma_fname_advances(env, bytes, pos);
    match parse_fname(env, bytes, pos) {
        Ok((name, p1)) => {
            if !name.is_none() {
                lemma_fname_advances(env, bytes, p1);
                match parse_fname(env, bytes, p1) {
                    Ok((kind, p2)) => {
                        match parse_i32(bytes, p2) {
                            Ok((length, p3)) => {
                                match parse_i32(bytes, p3) {
                                    Ok((index, p4)) => {
                                        lemma_property_of_monotone(
                                            env,
                                            bytes,
                                            p4,
                                            kind.content,
                                            name,
                                            include_header,
                                            length as i64,
                                            0,
                                            index,
                                        );
                                    },
                                    Err(e) => {},
                                }
                            },
                            Err(e) => {},
                        }
                    },
                    Err(e) => {},
                }
            }
        },
        Err(e) => {},
    }
}

/// The name `None`, which ends a list of properties.
pub open spec fn none_fname() -> FNameView {
    FNameView { content: none_name(), index: 0 }
}

/// Writing one property with its header, as a function of the property.
pub open spec fn property_writer(env: Env) -> spec_fn(PropertyView) -> Result<Seq<u8>, Error> {
    |v: PropertyView| ser_property(env, v, true)
}

/// The bytes of a list of properties on disk: the properties, each with
/// its tag and header, and the name `None`.
pub open spec fn ser_properties(env: Env, properties: Seq<PropertyView>) -> Result<Seq<u8>, Error> {
    match ser_all(property_writer(env), properties) {
        Err(e) => Err(e),
        Ok(list) => match ser_fname(env, none_fname()) {
            Err(e) => Err(e),
            Ok(end) => Ok(list + end),
        },
    }
}

/// The bytes of an ordinary export on disk: its properties, the name
/// `None`, and its extra bytes.
pub open spec fn ser_normal_export(env: Env, v: NormalExportView) -> Result<Seq<u8>, Error> {
    match ser_properties(env, v.properties) {
        Err(e) => Err(e),
        Ok(list) => Ok(list + v.extras),
    }
}

/// The ordinary export at `pos` without extra bytes.
pub open spec fn parse_normal_export(
    env: Env,
    bytes: Seq<u8>,
    pos: u64,
    base: BaseExportView,
) -> Parsed<NormalExportView> {
    match parse_properties(env, bytes, pos, Seq::empty()) {
        Err(e) => Err(e),
        Ok((properties, p)) => Ok(
            (NormalExportView { base_export: base, extras: Seq::empty(), properties }, p),
        ),
    }
}

/// The number of bytes between `pos` and `next`; none where `pos` lies
/// behind `next`.
pub open spec fn gap(pos: u64, next: u64) -> nat {
    if next > pos {
        (next - pos) as nat
    } else {
        0
    }
}

/// The ordinary export at `pos` whose extra bytes reach up to `next`.
pub open spec fn parse_normal_export_until(
    env: Env,
    bytes: Seq<u8>,
    pos: u64,
    base: BaseExportView,
    next: u64,
) -> Parsed<NormalExportView> {
    match parse_properties(env, bytes, pos, Seq::empty()) {
        Err(e) => Err(e),
        Ok((properties, p)) => if gap(p, next) > usize::MAX {
            Err(Error::eof())
        } else {
            match take(bytes, p, gap(p, next)) {
                Err(e) => Err(e),
                Ok((extras, q)) => Ok(
                    (NormalExportView { base_export: base, extras, properties }, q),
                ),
            }
        },
    }
}

/// Whether a list of properties is read back as it was written: the
/// name `None` that ends it is read back, and so is every property.
pub open spec fn properties_kept(
    reading: Env,
    writing: Env,
    properties: Seq<PropertyView>,
) -> bool {
    &&& name_kept(reading, writing, none_fname())
    &&& forall|k: int|
        0 <= k < properties.len() ==> property_kept(
            reading,
            writing,
            #[trigger] properties[k],
            true,
        )
}

/// The properties from index `i` on that were written, and the name
/// `None` behind them, are read back behind the properties `acc`.
pub proof fn lemma_properties_from(
    reading: Env,
    writing: Env,
    bytes: Seq<u8>,
    pos: u64,
    properties: Seq<PropertyView>,
    i: nat,
    acc: Seq<PropertyView>,
)
    requires
        paired(reading, writing),
        bytes.len() <= u64::MAX,
        i <= properties.len(),
        properties_kept(reading, writing, properties),
        ser_from(property_writer(writing), properties, i, Seq::<u8>::empty()) is Ok,
        ser_fname(writing, none_fname()) is Ok,
        has_at(
            bytes,
            pos as int,
            ser_from(property_writer(writing), properties, i, Seq::<u8>::empty())->Ok_0
                + ser_fname(writing, none_fname())->Ok_0,
        ),
    ensures
        parse_properties(reading, bytes, pos, acc) == Ok::<(Seq<PropertyView>, u64), Error>(
            (
                acc + properties.subrange(i as int, properties.len() as int),
                (pos + ser_from(
                    property_writer(writing),
                    properties,
                    i,
                    Seq::<u8>::empty(),
                )->Ok_0.len() + ser_fname(writing, none_fname())->Ok_0.len()) as u64,
            ),
        ),
    decreases properties.len() - i,
{
    let g = property_writer(writing);
    let none = Seq::<u8>::empty();
    let end = ser_fname(writing, none_fname())->Ok_0;
    if i < properties.len() {
        let v = properties[i as int];
        let c = ser_property(writing, v, true)->Ok_0;
        lemma_ser_from_shift(g, properties, i + 1, none + c);
        let rest = ser_from(g, properties, i + 1, none)->Ok_0;
        assert(none + c =~= c);
        assert(c + rest + end =~= c + (rest + end));
        lemma_has_at_concat(bytes, pos as int, c, rest + end);
        assert(property_kept(reading, writing, v, true));
        lemma_property_round_trip(reading, writing, bytes, pos, v, true);
        lemma_enc_dec();
        lemma_properties_from(
            reading,
            writing,
            bytes,
            (pos + c.len()) as u64,
            properties,
            i + 1,
            acc.push(v),
        );
        assert(acc.push(v) + properties.subrange(i as int + 1, properties.len() as int) =~= acc
            + properties.subrange(i as int, properties.len() as int));
    } else {
        assert(none + end =~= end);
        lemma_fname_round_trip(reading, writing, bytes, pos, none_fname());
        assert(acc + properties.subrange(i as int, properties.len() as int) =~= acc);
    }
}

/// Whether an ordinary export is read back as it was written.
pub open spec fn normal_export_kept(reading: Env, writing: Env, v: NormalExportView) -> bool {
    properties_kept(reading, writing, v.properties)
}

/// An ordinary export without extra bytes that was written is read back.
pub proof fn lemma_normal_export_round_trip(
    reading: Env,
    writing: Env,
    bytes: Seq<u8>,
    pos: u64,
    v: NormalExportView,
)
    requires
        paired(reading, writing),
        bytes.len() <= u64::MAX,
        ser_normal_export(writing, v) is Ok,
        has_at(bytes, pos as int, ser_normal_export(writing, v)->Ok_0),
        normal_export_kept(reading, writing, v),
        v.extras.len() == 0,
    ensures
        parse_normal_export(
            reading,
            bytes,
            pos,
            v.base_export,
        ) == Ok::<(NormalExportView, u64), Error>(
            (v, (pos + ser_normal_export(writing, v)->Ok_0.len()) as u64),
        ),
{
    let list = ser_properties(writing, v.properties)->Ok_0;
    assert(list + v.extras =~= list);
    lemma_properties_from(reading, writing, bytes, pos, v.properties, 0, Seq::empty());
    assert(Seq::<PropertyView>::empty() + v.properties.subrange(0, v.properties.len() as int)
        =~= v.properties);
    assert(v.extras =~= Seq::<u8>::empty());
}

/// An ordinary export that was written is read back with its extra bytes,
/// where it is read up to the place behind them.
pub proof fn lemma_normal_export_until_round_trip(
    reading: Env,
    writing: Env,
    bytes: Seq<u8>,
    pos: u64,
    v: NormalExportView,
)
    requires
        paired(reading, writing),
        bytes.len() <= usize::MAX,
        ser_normal_export(writing, v) is Ok,
        has_at(bytes, pos as int, ser_normal_export(writing, v)->Ok_0),
        normal_export_kept(reading, writing, v),
    ensures
        parse_normal_export_until(
            reading,
            bytes,
            pos,
            v.base_export,
            (pos + ser_normal_export(writing, v)->Ok_0.len()) as u64,
        ) == Ok::<(NormalExportView, u64), Error>(
            (v, (pos + ser_normal_export(writing, v)->Ok_0.len()) as u64),
        ),
{
    let list = ser_properties(writing, v.properties)->Ok_0;
    lemma_has_at_concat(bytes, pos as int, list, v.extras);
    lemma_properties_from(reading, writing, bytes, pos, v.properties, 0, Seq::empty());
    assert(Seq::<PropertyView>::empty() + v.properties.subrange(0, v.properties.len() as int)
        =~= v.properties);
}

impl NormalExport {
    /// Reads the properties from the position on, up to and with the name
    /// `None`, behind the properties that were read before.
    #[verifier::loop_isolation(false)]
    fn read_properties<Reader: AssetReader>(asset: &mut Reader) -> (r: Result<Vec<Property>, Error>)
        ensures
            final(asset).bytes() == old(asset).bytes(),
            final(asset).env() == old(asset).env(),
            yields_deep(
                r,
                final(asset).pos(),
                parse_properties(
                    old(asset).env(),
                    old(asset).bytes(),
                    old(asset).pos(),
                    Seq::empty(),
                ),
            ),
    {
        let ghost env = asset.env();
        let ghost bytes = asset.bytes();
        let ghost start = asset.pos();
        let mut properties: Vec<Property> = Vec::new();
        assert(properties.deep_view() =~= Seq::<PropertyView>::empty());
        loop
            invariant
                asset.bytes() == bytes,
                asset.env() == env,
                parse_properties(env, bytes, start, Seq::empty()) == parse_properties(
                    env,
                    bytes,
                    asset.pos(),
                    properties.deep_view(),
                ),
            decreases u64::MAX - asset.pos(),
        {
            let ghost before = properties.deep_view();
            proof {
                asset.lemma_bounded();
                lemma_property_advances(env, bytes, asset.pos(), true);
            }
            match Property::new(asset, true) {
                Err(e) => return Err(e),
                Ok(None) => return Ok(properties),
                Ok(Some(property)) => {
                    properties.push(property);
                    assert(properties.deep_view() =~= before.push(property.deep_view()));
                },
            }
        }
    }

    /// Reads an ordinary export without extra bytes: the properties up to
    /// the name `None`.
    pub fn from_base<Reader: AssetReader>(base: &BaseExport, asset: &mut Reader) -> (r: Result<
        NormalExport,
        Error,
    >)
        ensures
            final(asset).bytes() == old(asset).bytes(),
            final(asset).env() == old(asset).env(),
            yields_deep(
                r,
                final(asset).pos(),
                parse_normal_export(
                    old(asset).env(),
                    old(asset).bytes(),
                    old(asset).pos(),
                    base.deep_view(),
                ),
            ),
    {
        let properties = match NormalExport::read_properties(asset) {
            Ok(properties) => properties,
            Err(e) => return Err(e),
        };
        let extras: Vec<u8> = Vec::new();
        Ok(NormalExport { base_export: base.duplicate(), extras, properties })
    }

    /// Reads an ordinary export: the properties up to the name `None`,
    /// then all bytes up to `next_export_offset` as extra bytes.
    pub fn from_base_with_extras<Reader: AssetReader>(
        base: &BaseExport,
        asset: &mut Reader,
        next_export_offset: u64,
    ) -> (r: Result<NormalExport, Error>)
        ensures
            final(asset).bytes() == old(asset).bytes(),
            final(asset).env() == old(asset).env(),
            yields_deep(
                r,
                final(asset).pos(),
                parse_normal_export_until(
                    old(asset).env(),
                    old(asset).bytes(),
                    old(asset).pos(),
                    base.deep_view(),
                    next_export_offset,
                ),
            ),
    {
        let properties = match NormalExport::read_properties(asset) {
            Ok(properties) => properties,
            Err(e) => return Err(e),
        };
        let pos = asset.position();
        let count: u64 = if next_export_offset > pos {
            next_export_offset - pos
        } else {
            0
        };
        if count > usize::MAX as u64 {
            return Err(Error::Io(crate::error::IoError::UnexpectedEof));
        }
        let extras = match asset.read_exact(count as usize) {
            Ok(extras) => extras,
            Err(e) => return Err(e),
        };
        Ok(NormalExport { base_export: base.duplicate(), extras, properties })
    }

    /// Writes the export: its properties, the name `None`, and its extra
    /// bytes.
    #[verifier::loop_isolation(false)]
    pub fn write<Writer: AssetWriter>(&self, asset: &mut Writer) -> (r: Result<(), Error>)
        ensures
            final(asset).env() == old(asset).env(),
            emitted_checked(
                r,
                (),
                old(asset).bytes(),
                old(asset).pos(),
                final(asset).bytes(),
                final(asset).pos(),
                ser_normal_export(old(asset).env(), self.deep_view()),
            ),
    {
        let ghost env = asset.env();
        let ghost origin = asset.bytes();
        let ghost start = asset.pos();
        let ghost none = Seq::<u8>::empty();
        let ghost g = property_writer(env);
        let ghost items = self.properties.deep_view();
        let count = self.properties.len();
        let ghost mut list = none;
        let mut i: usize = 0;
        proof {
            lemma_ser_from_extends(g, items, 0, none);
        }
        while i < count
            invariant
                i <= count,
                asset.env() == env,
                asset.bytes() == write_at(origin, start as int, list),
                asset.pos() == start + list.len(),
                fits(start, list.len()),
                ser_all(g, items) == ser_from(g, items, i as nat, list),
            decreases count - i,
        {
            let entry = &self.properties[i];
            assert(items[i as int] == entry.deep_view());
            let ghost b = asset.bytes();
            let ghost p = asset.pos();
            let one = Property::write(entry, asset, true);
            proof {
                match ser_property(env, entry.deep_view(), true) {
                    Ok(chunk) => {
                        crate::stream::lemma_write_at_concat(origin, start as int, list, chunk);
                        lemma_ser_from_extends(g, items, (i + 1) as nat, list + chunk);
                        if one is Ok {
                            list = list + chunk;
                        }
                    },
                    Err(e) => {},
                }
            }
            if let Err(e) = one {
                return Err(e);
            }
            i = i + 1;
        }
        let sentinel = FName::from_slice("None");
        proof {
            reveal_strlit("None");
            assert(sentinel.deep_view().content =~= none_name());
        }
        let ghost b = asset.bytes();
        let ghost p = asset.pos();
        let two = asset.write_fname(&sentinel);
        let ghost end = ser_fname(env, none_fname());
        proof {
            if end is Ok {
                lemma_emit(two, origin, start, list, end->Ok_0, b, p, asset.bytes(), asset.pos());
            }
        }
        if let Err(e) = two {
            return Err(e);
        }
        let ghost b = asset.bytes();
        let ghost p = asset.pos();
        let three = asset.write_all(self.extras.as_slice());
        proof {
            lemma_emit(
                three,
                origin,
                start,
                list + end->Ok_0,
                self.extras@,
                b,
                p,
                asset.bytes(),
                asset.pos(),
            );
        }
        three
    }
}

/// Every list of properties that is read, behind properties `acc` that can
/// be written and are read back when they are, can be written and is read
/// back when it is.
pub proof fn lemma_properties_read_are_kept(
    env: Env,
    bytes: Seq<u8>,
    pos: u64,
    acc: Seq<PropertyView>,
)
    requires
        bytes.len() <= usize::MAX,
        table_kept(env),
        forall|k: int|
            0 <= k < acc.len() ==> property_kept(env, env, #[trigger] acc[k], true)
                && ser_property(env, acc[k], true) is Ok,
    ensures
        parse_properties(env, bytes, pos, acc) matches Ok((properties, _)) ==> properties_kept(
            env,
            env,
            properties,
        ) && ser_properties(env, properties) is Ok,
    decreases u64::MAX - pos,
{
    match parse_property(env, bytes, pos, true) {
        Err(e) => {},
        Ok((None, p)) => {
            let g = property_writer(env);
            lemma_fname_read_is_kept(env, bytes, pos);
            assert forall|k: int| 0 <= k < acc.len() implies (#[trigger] g(acc[k])) is Ok by {
                assert(property_kept(env, env, acc[k], true));
            }
            lemma_ser_from_total(g, acc, 0, Seq::empty());
        },
        Ok((Some(v), p)) => {
            if p > pos {
                lemma_property_read_is_kept(env, bytes, pos, true);
                lemma_properties_read_are_kept(env, bytes, p, acc.push(v));
            }
        },
    }
}

/// Every ordinary export that is read can be written, and is read back
/// when it is.
pub proof fn lemma_normal_export_read_is_kept(
    env: Env,
    bytes: Seq<u8>,
    pos: u64,
    base: BaseExportView,
    next: u64,
)
    requires
        bytes.len() <= usize::MAX,
        table_kept(env),
    ensures
        parse_normal_export_until(env, bytes, pos, base, next) matches Ok((v, _))
            ==> normal_export_kept(env, env, v) && ser_normal_export(env, v) is Ok
            && v.base_export == base,
{
    lemma_properties_read_are_kept(env, bytes, pos, Seq::empty());
}

} // verus!
