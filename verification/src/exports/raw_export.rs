//! The export of an object that is kept as bytes.

use crate::error::Error;
use crate::exports::base_export::{BaseExport, BaseExportView};
use crate::reader::asset_reader::AssetReader;
use crate::reader::asset_writer::AssetWriter;
use crate::stream::{has_at, take, wrote, yields_deep, Parsed};
use vstd::prelude::*;

verus! {

/// An object kept as the bytes that it takes in the file.
#[derive(Clone, Debug, PartialEq, Eq)]
pub struct RawExport {
    pub base_export: BaseExport,
    pub data: Vec<u8>,
}

/// What a [`RawExport`] stands for.
pub struct RawExportView {
    pub base_export: BaseExportView,
    pub data: Seq<u8>,
}

impl DeepView for RawExport {
    type V = RawExportView;

    open spec fn deep_view(&self) -> RawExportView {
        RawExportView { base_export: self.base_export.deep_view(), data: self.data@ }
    }
}

/// The number of bytes that an export of the declared size takes: the
/// size itself, and for a negative size what it is when taken as unsigned.
pub open spec fn declared_size(serial_size: i64) -> nat {
    (serial_size as usize) as nat
}

/// The raw export at `pos`: as many bytes as its bookkeeping declares.
pub open spec fn parse_raw_export(bytes: Seq<u8>, pos: u64, base: BaseExportView) -> Parsed<
    RawExportView,
> {
    match take(bytes, pos, declared_size(base.serial_size)) {
        Err(e) => Err(e),
        Ok((data, p)) => Ok((RawExportView { base_export: base, data }, p)),
    }
}

impl RawExport {
    /// Reads as many bytes as the bookkeeping declares.
    pub fn from_base<Reader: AssetReader>(base: BaseExport, asset: &mut Reader) -> (r: Result<
        RawExport,
        Error,
    >)
        ensures
            final(asset).bytes() == old(asset).bytes(),
            final(asset).env() == old(asset).env(),
            yields_deep(
                r,
                final(asset).pos(),
                parse_raw_export(old(asset).bytes(), old(asset).pos(), base.deep_view()),
            ),
    {
        let size = #[verifier::truncate] (base.serial_size as usize);
        let data = match asset.read_exact(size) {
            Ok(data) => data,
            Err(e) => return Err(e),
        };
        Ok(RawExport { base_export: base, data })
    }

    /// Writes the bytes of the export, all of them or none.
    pub fn write<Writer: AssetWriter>(&self, asset: &mut Writer) -> (r: Result<(), Error>)
        ensures
            final(asset).env() == old(asset).env(),
            wrote(
                r,
                old(asset).bytes(),
                old(asset).pos(),
                final(asset).bytes(),
                final(asset).pos(),
                self.data@,
            ),
    {
        asset.write_all(self.data.as_slice())
    }
}

/// A raw export that was written is read back, where its bookkeeping
/// declares the number of its bytes.
pub proof fn lemma_raw_export_round_trip(bytes: Seq<u8>, pos: u64, v: RawExportView)
    requires
        bytes.len() <= u64::MAX,
        has_at(bytes, pos as int, v.data),
        declared_size(v.base_export.serial_size) == v.data.len(),
    ensures
        parse_raw_export(bytes, pos, v.base_export) == Ok::<(RawExportView, u64), Error>(
            (v, (pos + v.data.len()) as u64),
        ),
{
}

} // verus!
