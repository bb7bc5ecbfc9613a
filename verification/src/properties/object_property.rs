//! A property that holds a link to an object.

use crate::error::Error;
use crate::le::{enc_i32, lemma_enc_dec};
use crate::properties::{
    guid_kept, lemma_optional_guid_round_trip, optional_guid, optional_guid_write,
    parse_optional_guid, ser_optional_guid, ScalarView,
};
use crate::reader::asset_reader::AssetReader;
use crate::reader::asset_trait::{paired, Env};
use crate::reader::asset_writer::AssetWriter;
use crate::reader::lists::link_reader;
use crate::stream::{emitted, has_at, lemma_emit, lemma_has_at_concat, yields_deep, Parsed};
use crate::unreal_types::{FName, FNameView, Guid, PackageIndex};
use vstd::prelude::*;

verus! {

/// A link to an object of the package or of another package.
#[derive(Clone, Debug, PartialEq, Eq, Hash)]
pub struct ObjectProperty {
    pub name: FName,
    pub property_guid: Option<Guid>,
    pub duplication_index: i32,
    pub value: PackageIndex,
}

/// What a [`ObjectProperty`] stands for.
pub type ObjectPropertyView = ScalarView<PackageIndex>;

impl DeepView for ObjectProperty {
    type V = ObjectPropertyView;

    open spec fn deep_view(&self) -> ObjectPropertyView {
        ScalarView {
            name: self.name.deep_view(),
            property_guid: self.property_guid.deep_view(),
            duplication_index: self.duplication_index,
            value: self.value,
        }
    }
}

/// The property at `pos`: its identifier, where a header is stored, and
/// its value.
pub open spec fn parse_object_property(
    env: Env,
    bytes: Seq<u8>,
    pos: u64,
    name: FNameView,
    include_header: bool,
    duplication_index: i32,
) -> Parsed<ObjectPropertyView> {
    match parse_optional_guid(env, bytes, pos, include_header) {
        Err(e) => Err(e),
        Ok((property_guid, p)) => match link_reader(bytes)(p) {
            Err(e) => Err(e),
            Ok((value, q)) => Ok(
                (ScalarView { name, property_guid, duplication_index, value }, q),
            ),
        },
    }
}

/// The bytes of the property on disk.
pub open spec fn ser_object_property(
    env: Env,
    v: ObjectPropertyView,
    include_header: bool,
) -> Seq<u8> {
    ser_optional_guid(env, v.property_guid, include_header) + enc_i32(v.value.index)
}

/// Whether the property is read back as it was written.
pub open spec fn object_property_kept(
    reading: Env,
    writing: Env,
    v: ObjectPropertyView,
    include_header: bool,
) -> bool {
    guid_kept(writing, v.property_guid, include_header)
}

/// Reads a link to an object.
fn read_link<Reader: AssetReader>(asset: &mut Reader) -> (r: Result<PackageIndex, Error>)
    ensures
        final(asset).bytes() == old(asset).bytes(),
        final(asset).env() == old(asset).env(),
        crate::stream::yields(
            r,
            final(asset).pos(),
            link_reader(old(asset).bytes())(old(asset).pos()),
        ),
{
    match asset.read_i32() {
        Ok(index) => Ok(PackageIndex::new(index)),
        Err(e) => Err(e),
    }
}

impl ObjectProperty {
    /// Reads the property. The declared length is not consulted.
    pub fn new<Reader: AssetReader>(
        asset: &mut Reader,
        name: FName,
        include_header: bool,
        _length: i64,
        duplication_index: i32,
    ) -> (r: Result<ObjectProperty, Error>)
        ensures
            final(asset).bytes() == old(asset).bytes(),
            final(asset).env() == old(asset).env(),
            yields_deep(
                r,
                final(asset).pos(),
                parse_object_property(
                    old(asset).env(),
                    old(asset).bytes(),
                    old(asset).pos(),
                    name.deep_view(),
                    include_header,
                    duplication_index,
                ),
            ),
    {
        let property_guid = match optional_guid(asset, include_header) {
            Ok(guid) => guid,
            Err(e) => return Err(e),
        };
        let value = match read_link(asset) {
            Ok(value) => value,
            Err(e) => return Err(e),
        };
        Ok(ObjectProperty { name, property_guid, duplication_index, value })
    }

    /// Writes the property and reports the count of its value.
    pub fn write<Writer: AssetWriter>(&self, asset: &mut Writer, include_header: bool) -> (r:
        Result<usize, Error>)
        ensures
            final(asset).env() == old(asset).env(),
            emitted(
                r,
                4usize,
                old(asset).bytes(),
                old(asset).pos(),
                final(asset).bytes(),
                final(asset).pos(),
                ser_object_property(old(asset).env(), self.deep_view(), include_header),
            ),
    {
        let ghost origin = asset.bytes();
        let ghost start = asset.pos();
        let ghost none = Seq::<u8>::empty();
        let ghost head = ser_optional_guid(
            asset.env(),
            self.property_guid.deep_view(),
            include_header,
        );
        let first = optional_guid_write(asset, &self.property_guid, include_header);
        proof {
            lemma_emit(first, origin, start, none, head, origin, start, asset.bytes(), asset.pos());
            assert(none + head =~= head);
        }
        if let Err(e) = first {
            return Err(e);
        }
        let ghost mid = asset.bytes();
        let ghost at = asset.pos();
        let second = asset.write_i32(self.value.index);
        proof {
            lemma_emit(
                second,
                origin,
                start,
                head,
                enc_i32(self.value.index),
                mid,
                at,
                asset.bytes(),
                asset.pos(),
            );
        }
        match second {
            Ok(()) => Ok(4),
            Err(e) => Err(e),
        }
    }
}

/// A property that was written is read back.
pub proof fn lemma_object_property_round_trip(
    reading: Env,
    writing: Env,
    bytes: Seq<u8>,
    pos: u64,
    v: ObjectPropertyView,
    include_header: bool,
)
    requires
        paired(reading, writing),
        bytes.len() <= u64::MAX,
        has_at(bytes, pos as int, ser_object_property(writing, v, include_header)),
        object_property_kept(reading, writing, v, include_header),
    ensures
        parse_object_property(
            reading,
            bytes,
            pos,
            v.name,
            include_header,
            v.duplication_index,
        ) == Ok::<(ObjectPropertyView, u64), Error>(
            (
                v,
                (pos + ser_object_property(writing, v, include_header).len()) as u64,
            ),
        ),
{
    lemma_enc_dec();
    let head = ser_optional_guid(writing, v.property_guid, include_header);
    lemma_has_at_concat(bytes, pos as int, head, enc_i32(v.value.index));
    lemma_optional_guid_round_trip(reading, writing, bytes, pos, v.property_guid, include_header);
}

/// Reading the property does not end before it starts.
pub proof fn lemma_object_property_monotone(
    env: Env,
    bytes: Seq<u8>,
    pos: u64,
    name: FNameView,
    include_header: bool,
    duplication_index: i32,
)
    requires
        bytes.len() <= u64::MAX,
    ensures
        parse_object_property(env, bytes, pos, name, include_header, duplication_index) matches Ok(
            (_, end),
        ) ==> end >= pos,
{

}

} // verus!
