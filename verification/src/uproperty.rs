//! The head of a field: what a struct export stores before its layout.

use crate::custom_version::{framework_object_guid, FFrameworkObjectVersion};
use crate::error::{Error, NoDataError};
use crate::le::{enc_i32, lemma_enc_dec};
use crate::reader::asset_reader::AssetReader;
use crate::reader::asset_trait::{paired, Env};
use crate::reader::asset_writer::AssetWriter;
use crate::stream::{has_at, parse_i32, yields, Parsed};
use crate::unreal_types::PackageIndex;
use vstd::prelude::*;

verus! {

/// The head of a field. Before framework objects reached the version
/// that removed it, a field stores the link to the field that follows it.
#[derive(Clone, Copy, Debug, PartialEq, Eq, Hash, Structural)]
pub struct UField {
    pub next: Option<PackageIndex>,
}

/// Whether a field stores the link to the next field under `env`.
pub open spec fn stores_next(env: Env) -> bool {
    env.version_of(framework_object_guid()) < FFrameworkObjectVersion::REMOVE_UFIELD_NEXT
}

/// The head of a field at `pos`.
pub open spec fn parse_ufield(env: Env, bytes: Seq<u8>, pos: u64) -> Parsed<UField> {
    if stores_next(env) {
        match parse_i32(bytes, pos) {
            Err(e) => Err(e),
            Ok((index, p)) => Ok((UField { next: Some(PackageIndex { index }) }, p)),
        }
    } else {
        Ok((UField { next: None }, pos))
    }
}

/// The bytes of the head of a field on disk. Where the link is stored, a
/// field without a link cannot be written.
pub open spec fn ser_ufield(env: Env, field: UField) -> Result<Seq<u8>, Error> {
    if stores_next(env) {
        match field.next {
            Some(link) => Ok(enc_i32(link.index)),
            None => Err(Error::NoData(NoDataError::FieldNext)),
        }
    } else {
        Ok(Seq::<u8>::empty())
    }
}

impl UField {
    /// Reads the head of a field.
    pub fn new<Reader: AssetReader>(asset: &mut Reader) -> (r: Result<UField, Error>)
        ensures
            final(asset).bytes() == old(asset).bytes(),
            final(asset).env() == old(asset).env(),
            yields(
                r,
                final(asset).pos(),
                parse_ufield(old(asset).env(), old(asset).bytes(), old(asset).pos()),
            ),
    {
        let guid = FFrameworkObjectVersion::guid();
        if asset.get_custom_version(&guid).version < FFrameworkObjectVersion::REMOVE_UFIELD_NEXT {
            match asset.read_i32() {
                Ok(index) => Ok(UField { next: Some(PackageIndex::new(index)) }),
                Err(e) => Err(e),
            }
        } else {
            Ok(UField { next: None })
        }
    }

    /// Writes the head of a field, all of it or nothing.
    pub fn write<Writer: AssetWriter>(&self, asset: &mut Writer) -> (r: Result<(), Error>)
        ensures
            final(asset).env() == old(asset).env(),
            crate::reader::asset_writer::wrote_checked(
                r,
                old(asset).bytes(),
                old(asset).pos(),
                final(asset).bytes(),
                final(asset).pos(),
                ser_ufield(old(asset).env(), *self),
            ),
    {
        let guid = FFrameworkObjectVersion::guid();
        if asset.get_custom_version(&guid).version < FFrameworkObjectVersion::REMOVE_UFIELD_NEXT {
            match self.next {
                Some(link) => asset.write_i32(link.index),
                None => Err(Error::NoData(NoDataError::FieldNext)),
            }
        } else {
            Ok(())
        }
    }
}

/// The head of a field that was written is read back, where it holds a
/// link exactly when links are stored.
pub proof fn lemma_ufield_round_trip(
    reading: Env,
    writing: Env,
    bytes: Seq<u8>,
    pos: u64,
    field: UField,
)
    requires
        paired(reading, writing),
        bytes.len() <= u64::MAX,
        ser_ufield(writing, field) is Ok,
        has_at(bytes, pos as int, ser_ufield(writing, field)->Ok_0),
        field.next is Some <==> stores_next(writing),
    ensures
        parse_ufield(reading, bytes, pos) == Ok::<(UField, u64), Error>(
            (field, (pos + ser_ufield(writing, field)->Ok_0.len()) as u64),
        ),
{
    lemma_enc_dec();
}

} // verus!
