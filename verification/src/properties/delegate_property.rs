//! A list of bound delegates.

use crate::error::Error;
use crate::le::{enc_i32, lemma_enc_dec};
use crate::properties::{
    guid_kept, lemma_optional_guid_round_trip, optional_guid, optional_guid_write,
    parse_optional_guid, ser_optional_guid,
};
use crate::reader::asset_reader::AssetReader;
use crate::reader::asset_trait::{
    lemma_fname_advances, lemma_fname_read_is_kept, lemma_fname_round_trip, lemma_fname_within,
    name_kept, paired, parse_fname, ser_fname, table_kept, Env,
};
use crate::reader::asset_writer::AssetWriter;
use crate::reader::lists::{announced, lemma_announced};
use crate::stream::{
    emitted_checked, fits, has_at, lemma_emit, lemma_from_round_trip, lemma_has_at_concat,
    lemma_parse_from_advances, lemma_parse_from_each, lemma_parse_from_monotone,
    lemma_parse_from_within, lemma_ser_from_extends, lemma_ser_from_total, parse_from, parse_i32,
    parse_many, ser_all, ser_from, write_at, yields_deep, Parsed,
};
use crate::unreal_types::{FName, FNameView, Guid, PackageIndex};
use vstd::prelude::*;

verus! {

/// A delegate bound to an object: the object and the name of the function.
#[derive(Clone, Debug, PartialEq, Eq, Hash)]
pub struct MulticastDelegate {
    pub object: PackageIndex,
    pub delegate: FName,
}

/// What a [`MulticastDelegate`] stands for.
pub struct MulticastDelegateView {
    pub object: PackageIndex,
    pub delegate: FNameView,
}

impl DeepView for MulticastDelegate {
    type V = MulticastDelegateView;

    open spec fn deep_view(&self) -> MulticastDelegateView {
        MulticastDelegateView { object: self.object, delegate: self.delegate.deep_view() }
    }
}

impl MulticastDelegate {
    pub fn new(object: PackageIndex, delegate: FName) -> (d: MulticastDelegate)
        ensures
            d.deep_view() == (MulticastDelegateView { object, delegate: delegate.deep_view() }),
    {
        MulticastDelegate { object, delegate }
    }
}

/// The delegates bound to an event, in the order in which they are called.
#[derive(Clone, Debug, PartialEq, Eq, Hash)]
pub struct MulticastDelegateProperty {
    pub name: FName,
    pub property_guid: Option<Guid>,
    pub duplication_index: i32,
    pub value: Vec<MulticastDelegate>,
}

/// What a [`MulticastDelegateProperty`] stands for.
pub struct MulticastDelegatePropertyView {
    pub name: FNameView,
    pub property_guid: Option<Seq<u8>>,
    pub duplication_index: i32,
    pub value: Seq<MulticastDelegateView>,
}

impl DeepView for MulticastDelegateProperty {
    type V = MulticastDelegatePropertyView;

    open spec fn deep_view(&self) -> MulticastDelegatePropertyView {
        MulticastDelegatePropertyView {
            name: self.name.deep_view(),
            property_guid: self.property_guid.deep_view(),
            duplication_index: self.duplication_index,
            value: self.value.deep_view(),
        }
    }
}

/// The delegate at `pos`: the link to its object and the name of its
/// function.
pub open spec fn parse_delegate(env: Env, bytes: Seq<u8>, pos: u64) -> Parsed<
    MulticastDelegateView,
> {
    match parse_i32(bytes, pos) {
        Err(e) => Err(e),
        Ok((object, p)) => match parse_fname(env, bytes, p) {
            Err(e) => Err(e),
            Ok((delegate, q)) => Ok(
                (MulticastDelegateView { object: PackageIndex { index: object }, delegate }, q),
            ),
        },
    }
}

/// The bytes of a delegate on disk.
pub open spec fn ser_delegate(env: Env, d: MulticastDelegateView) -> Result<Seq<u8>, Error> {
    match ser_fname(env, d.delegate) {
        Err(e) => Err(e),
        Ok(name) => Ok(enc_i32(d.object.index) + name),
    }
}

/// Reading one delegate, as a function of the position.
pub open spec fn delegate_reader(env: Env, bytes: Seq<u8>) -> spec_fn(u64) -> Parsed<
    MulticastDelegateView,
> {
    |p: u64| parse_delegate(env, bytes, p)
}

/// Writing one delegate, as a function of the delegate.
pub open spec fn delegate_writer(env: Env) -> spec_fn(MulticastDelegateView) -> Result<
    Seq<u8>,
    Error,
> {
    |d: MulticastDelegateView| ser_delegate(env, d)
}

/// The property at `pos`: its identifier where a header is stored, the
/// number of its delegates, and the delegates.
pub open spec fn parse_multicast_delegate_property(
    env: Env,
    bytes: Seq<u8>,
    pos: u64,
    name: FNameView,
    include_header: bool,
    duplication_index: i32,
) -> Parsed<MulticastDelegatePropertyView> {
    match parse_optional_guid(env, bytes, pos, include_header) {
        Err(e) => Err(e),
        Ok((property_guid, p)) => match parse_i32(bytes, p) {
            Err(e) => Err(e),
            Ok((count, q)) => match parse_many(delegate_reader(env, bytes), q, announced(count)) {
                Err(e) => Err(e),
                Ok((value, end)) => Ok(
                    (
                        MulticastDelegatePropertyView {
                            name,
                            property_guid,
                            duplication_index,
                            value,
                        },
                        end,
                    ),
                ),
            },
        },
    }
}

/// The bytes of the property on disk.
pub open spec fn ser_multicast_delegate_property(
    env: Env,
    v: MulticastDelegatePropertyView,
    include_header: bool,
) -> Result<Seq<u8>, Error> {
    match ser_all(delegate_writer(env), v.value) {
        Err(e) => Err(e),
        Ok(list) => Ok(
            ser_optional_guid(env, v.property_guid, include_header) + enc_i32(v.value.len() as i32)
                + list,
        ),
    }
}

/// The count that writing the property reports: four bytes for the number
/// of delegates and twelve for each delegate.
pub open spec fn multicast_delegate_written(count: nat) -> usize {
    (4 + 12 * count) as usize
}

impl MulticastDelegateProperty {
    /// Reads the property. The declared length is not consulted.
    #[verifier::loop_isolation(false)]
    pub fn new<Reader: AssetReader>(
        asset: &mut Reader,
        name: FName,
        include_header: bool,
        _length: i64,
        duplication_index: i32,
    ) -> (r: Result<MulticastDelegateProperty, Error>)
        ensures
            final(asset).bytes() == old(asset).bytes(),
            final(asset).env() == old(asset).env(),
            yields_deep(
                r,
                final(asset).pos(),
                parse_multicast_delegate_property(
                    old(asset).env(),
                    old(asset).bytes(),
                    old(asset).pos(),
                    name.deep_view(),
                    include_header,
                    duplication_index,
                ),
            ),
    {
        let ghost env = asset.env();
        let ghost bytes = asset.bytes();
        let property_guid = match optional_guid(asset, include_header) {
            Ok(guid) => guid,
            Err(e) => return Err(e),
        };
        let length = match asset.read_i32() {
            Ok(length) => length,
            Err(e) => return Err(e),
        };
        let count = #[verifier::truncate] (length as usize);
        let ghost first = asset.pos();
        let ghost f = delegate_reader(env, bytes);
        let mut value: Vec<MulticastDelegate> = Vec::new();
        let mut i: usize = 0;
        assert(value.deep_view() =~= Seq::<MulticastDelegateView>::empty());
        while i < count
            invariant
                i <= count,
                asset.bytes() == bytes,
                asset.env() == env,
                parse_many(f, first, count as nat) == parse_from(
                    f,
                    asset.pos(),
                    (count - i) as nat,
                    value.deep_view(),
                ),
            decreases count - i,
        {
            let ghost before = value.deep_view();
            let object = match asset.read_i32() {
                Ok(object) => object,
                Err(e) => return Err(e),
            };
            let delegate = match asset.read_fname() {
                Ok(delegate) => delegate,
                Err(e) => return Err(e),
            };
            let entry = MulticastDelegate::new(PackageIndex::new(object), delegate);
            value.push(entry);
            assert(value.deep_view() =~= before.push(entry.deep_view()));
            i = i + 1;
        }
        Ok(MulticastDelegateProperty { name, property_guid, duplication_index, value })
    }

    /// Writes the property and reports its count.
    #[verifier::loop_isolation(false)]
    pub fn write<Writer: AssetWriter>(
        &self,
        asset: &mut Writer,
        include_header: bool,
    ) -> (r: Result<usize, Error>)
        ensures
            final(asset).env() == old(asset).env(),
            emitted_checked(
                r,
                multicast_delegate_written(self.value@.len()),
                old(asset).bytes(),
                old(asset).pos(),
                final(asset).bytes(),
                final(asset).pos(),
                ser_multicast_delegate_property(old(asset).env(), self.deep_view(), include_header),
            ),
    {
        let ghost env = asset.env();
        let ghost origin = asset.bytes();
        let ghost start = asset.pos();
        let ghost none = Seq::<u8>::empty();
        let ghost g = delegate_writer(env);
        let ghost items = self.value.deep_view();
        let ghost guid = ser_optional_guid(env, self.property_guid.deep_view(), include_header);
        let count = self.value.len();
        let ghost head = guid + enc_i32(#[verifier::truncate] (count as i32));
        proof {
            lemma_ser_from_extends(g, items, 0, none);
            lemma_enc_dec();
        }
        let first = optional_guid_write(asset, &self.property_guid, include_header);
        proof {
            lemma_emit(first, origin, start, none, guid, origin, start, asset.bytes(), asset.pos());
            assert(none + guid =~= guid);
        }
        if let Err(e) = first {
            return Err(e);
        }
        let ghost mid = asset.bytes();
        let ghost at = asset.pos();
        let second = asset.write_i32(#[verifier::truncate] (count as i32));
        proof {
            lemma_emit(
                second,
                origin,
                start,
                guid,
                enc_i32(#[verifier::truncate] (count as i32)),
                mid,
                at,
                asset.bytes(),
                asset.pos(),
            );
        }
        if let Err(e) = second {
            return Err(e);
        }
        let ghost mut list = none;
        let mut i: usize = 0;
        while i < count
            invariant
                i <= count,
                count == self.value@.len(),
                asset.env() == env,
                asset.bytes() == write_at(origin, start as int, head + list),
                asset.pos() == start + (head + list).len(),
                fits(start, (head + list).len()),
                ser_all(g, items) == ser_from(g, items, i as nat, list),
            decreases count - i,
        {
            let entry = &self.value[i];
            assert(items[i as int] == entry.deep_view());
            let ghost mid = asset.bytes();
            let ghost at = asset.pos();
            let ghost link = enc_i32(entry.object.index);
            let one = asset.write_i32(entry.object.index);
            proof {
                lemma_emit(
                    one,
                    origin,
                    start,
                    head + list,
                    link,
                    mid,
                    at,
                    asset.bytes(),
                    asset.pos(),
                );
            }
            if let Err(e) = one {
                proof {
                    lemma_ser_from_extends(g, items, i as nat, list);
                    if g(items[i as int]) is Ok {
                        lemma_ser_from_extends(
                            g,
                            items,
                            (i + 1) as nat,
                            list + g(items[i as int])->Ok_0,
                        );
                    }
                }
                return Err(e);
            }
            let ghost mid = asset.bytes();
            let ghost at = asset.pos();
            let two = asset.write_fname(&entry.delegate);
            proof {
                match ser_fname(env, entry.delegate.deep_view()) {
                    Ok(name) => {
                        lemma_emit(
                            two,
                            origin,
                            start,
                            head + list + link,
                            name,
                            mid,
                            at,
                            asset.bytes(),
                            asset.pos(),
                        );
                        assert(head + list + link + name =~= head + (list + (link + name)));
                        lemma_ser_from_extends(g, items, (i + 1) as nat, list + (link + name));
                        list = list + (link + name);
                    },
                    Err(e) => {},
                }
            }
            if let Err(e) = two {
                return Err(e);
            }
            i = i + 1;
        }
        Ok(#[verifier::truncate] ((4 + 12 * (count as u128)) as usize))
    }
}

/// Reading the property does not end before it starts.
pub proof fn lemma_multicast_delegate_property_monotone(
    env: Env,
    bytes: Seq<u8>,
    pos: u64,
    name: FNameView,
    include_header: bool,
    duplication_index: i32,
)
    requires
        bytes.len() <= u64::MAX,
    ensures
        parse_multicast_delegate_property(
            env,
            bytes,
            pos,
            name,
            include_header,
            duplication_index,
        ) matches Ok((_, end)) ==> end >= pos,
{
    let f = delegate_reader(env, bytes);
    assert forall|p: u64| (#[trigger] f(p)) matches Ok((_, q)) ==> q >= p by {
        match parse_i32(bytes, p) {
            Ok((_, p1)) => {
                lemma_fname_advances(env, bytes, p1);
            },
            Err(e) => {},
        }
    }
    match parse_optional_guid(env, bytes, pos, include_header) {
        Ok((_, p)) => {
            match parse_i32(bytes, p) {
                Ok((count, q)) => {
                    lemma_parse_from_monotone(f, q, announced(count), Seq::empty());
                },
                Err(e) => {},
            }
        },
        Err(e) => {},
    }
}

/// A delegate that was written is read back.
pub proof fn lemma_delegate_round_trip(
    reading: Env,
    writing: Env,
    bytes: Seq<u8>,
    pos: u64,
    d: MulticastDelegateView,
)
    requires
        paired(reading, writing),
        bytes.len() <= u64::MAX,
        ser_delegate(writing, d) is Ok,
        has_at(bytes, pos as int, ser_delegate(writing, d)->Ok_0),
        name_kept(reading, writing, d.delegate),
    ensures
        parse_delegate(reading, bytes, pos) == Ok::<(MulticastDelegateView, u64), Error>(
            (d, (pos + ser_delegate(writing, d)->Ok_0.len()) as u64),
        ),
{
    lemma_enc_dec();
    let name = ser_fname(writing, d.delegate)->Ok_0;
    lemma_has_at_concat(bytes, pos as int, enc_i32(d.object.index), name);
    lemma_fname_round_trip(reading, writing, bytes, (pos + 4) as u64, d.delegate);
}

/// A property that was written is read back: where its identifier and
/// the names of its delegates are read back as written and the number of
/// delegates fits the stored count, reading where the property stands
/// yields it and ends behind it.
pub proof fn lemma_multicast_delegate_property_round_trip(
    reading: Env,
    writing: Env,
    bytes: Seq<u8>,
    pos: u64,
    v: MulticastDelegatePropertyView,
    include_header: bool,
)
    requires
        paired(reading, writing),
        bytes.len() <= u64::MAX,
        ser_multicast_delegate_property(writing, v, include_header) is Ok,
        has_at(
            bytes,
            pos as int,
            ser_multicast_delegate_property(writing, v, include_header)->Ok_0,
        ),
        guid_kept(writing, v.property_guid, include_header),
        v.value.len() <= i32::MAX,
        forall|k: int| 0 <= k < v.value.len() ==> name_kept(
            reading,
            writing,
            #[trigger] v.value[k].delegate,
        ),
    ensures
        parse_multicast_delegate_property(reading,
            bytes,
            pos,
            v.name,
            include_header,
            v.duplication_index,
        ) == Ok::<(MulticastDelegatePropertyView, u64), Error>(
            (
                v,
                (pos + ser_multicast_delegate_property(
                    writing,
                    v,
                    include_header,
                )->Ok_0.len()) as u64,
            ),
        ),
{
    lemma_enc_dec();
    let f = delegate_reader(reading, bytes);
    let g = delegate_writer(writing);
    let guid = ser_optional_guid(writing, v.property_guid, include_header);
    let count = enc_i32(v.value.len() as i32);
    let list = ser_all(g, v.value)->Ok_0;
    lemma_has_at_concat(bytes, pos as int, guid + count, list);
    lemma_has_at_concat(bytes, pos as int, guid, count);
    lemma_optional_guid_round_trip(reading, writing, bytes, pos, v.property_guid, include_header);
    let q = (pos + guid.len() + 4) as u64;
    assert forall|k: int, p: u64|
        #![trigger g(v.value[k]), f(p)]
        0 <= k < v.value.len() && g(v.value[k]) is Ok && has_at(
            bytes,
            p as int,
            g(v.value[k])->Ok_0,
        ) implies f(p) == Ok::<(MulticastDelegateView, u64), Error>(
        (v.value[k], (p + g(v.value[k])->Ok_0.len()) as u64),
    ) by {
        assert(name_kept(reading, writing, v.value[k].delegate));
        lemma_delegate_round_trip(reading, writing, bytes, p, v.value[k]);
    }
    lemma_from_round_trip(f, g, bytes, q, v.value, 0, Seq::empty());
    assert(Seq::<MulticastDelegateView>::empty() + v.value.subrange(0, v.value.len() as int)
        =~= v.value);
}

/// Every delegate property that is read can be written, and is read back
/// when it is: it has no more delegates than a count can announce, and
/// the names of its delegates are read back.
pub proof fn lemma_multicast_delegate_property_read_is_kept(
    env: Env,
    bytes: Seq<u8>,
    pos: u64,
    name: FNameView,
    include_header: bool,
    duplication_index: i32,
)
    requires
        bytes.len() <= usize::MAX,
        table_kept(env),
    ensures
        parse_multicast_delegate_property(
            env,
            bytes,
            pos,
            name,
            include_header,
            duplication_index,
        ) matches Ok((v, _)) ==> {
            &&& v.value.len() <= i32::MAX
            &&& forall|k: int|
                0 <= k < v.value.len() ==> name_kept(env, env, #[trigger] v.value[k].delegate)
            &&& ser_multicast_delegate_property(env, v, include_header) is Ok
        },
{
    if let Ok((v, end)) = parse_multicast_delegate_property(
        env,
        bytes,
        pos,
        name,
        include_header,
        duplication_index,
    ) {
        let p = parse_optional_guid(env, bytes, pos, include_header)->Ok_0.1;
        let count = parse_i32(bytes, p)->Ok_0.0;
        let q = parse_i32(bytes, p)->Ok_0.1;
        let f = delegate_reader(env, bytes);
        let g = delegate_writer(env);
        let good = |d: MulticastDelegateView|
            name_kept(env, env, d.delegate) && ser_fname(env, d.delegate) is Ok;
        assert forall|at: u64| (#[trigger] f(at)) is Ok implies good(f(at)->Ok_0.0) && at + 8
            <= f(at)->Ok_0.1 <= bytes.len() + 2 by {
            if let Ok((_, mid)) = parse_i32(bytes, at) {
                lemma_fname_read_is_kept(env, bytes, mid);
                lemma_fname_advances(env, bytes, mid);
                lemma_fname_within(env, bytes, mid);
            }
        }
        lemma_parse_from_each(f, q, announced(count), Seq::empty(), good);
        lemma_parse_from_advances(f, q, announced(count), Seq::empty(), 8);
        lemma_announced(count);
        if count < 0 {
            lemma_parse_from_within(f, q, announced(count), Seq::empty(), bytes.len() + 2);
        }
        assert forall|k: int| 0 <= k < v.value.len() implies (#[trigger] g(v.value[k])) is Ok by {
            assert(good(v.value[k]));
        }
        lemma_ser_from_total(g, v.value, 0, Seq::empty());
        assert forall|k: int| 0 <= k < v.value.len() implies name_kept(
            env,
            env,
            #[trigger] v.value[k].delegate,
        ) by {
            assert(good(v.value[k]));
        }
    }
}

} // verus!
