//! A writer that stores names as indices into a name table.

use crate::cursor::SeekFrom;
use crate::error::{Error, NoDataError};
use crate::le;
use crate::le::{enc_i32, lemma_enc_dec};
use crate::reader::asset_trait::{hash_name, AssetTrait, CustomVersion, Env, NameTable};
use crate::reader::asset_writer::AssetWriter;
use crate::registry::name_table_reader::with_table;
use crate::unreal_types::{FName, Guid, Import, PackageIndex};
use std::collections::HashMap;
use vstd::prelude::*;

verus! {

broadcast use vstd::std_specs::hash::group_hash_axioms;

/// The name table of a writer: it knows the lookup, not the texts.
pub open spec fn lookup_table(lookup: Map<u64, i32>) -> NameTable {
    NameTable { names: Seq::empty(), lookup }
}

/// A writer over another writer that writes a name as the index that a
/// lookup holds for its text, and its suffix. Everything else it leaves to
/// the writer that it holds.
pub struct NameTableWriter<'a, Writer: AssetWriter> {
    pub writer: Writer,
    pub name_map_lookup: &'a HashMap<u64, i32>,
}

impl<'a, Writer: AssetWriter> NameTableWriter<'a, Writer> {
    pub fn new(writer: Writer, name_map_lookup: &'a HashMap<u64, i32>) -> (w: NameTableWriter<
        'a,
        Writer,
    >)
        ensures
            w.writer == writer,
            w.name_map_lookup@ == name_map_lookup@,
    {
        NameTableWriter { writer, name_map_lookup }
    }

    /// The writer that this one holds, giving up this one.
    pub fn into_inner(self) -> (writer: Writer)
        ensures
            writer == self.writer,
    {
        self.writer
    }
}

impl<'a, Writer: AssetWriter> AssetTrait for NameTableWriter<'a, Writer> {
    open spec fn bytes(&self) -> Seq<u8> {
        self.writer.bytes()
    }

    open spec fn pos(&self) -> u64 {
        self.writer.pos()
    }

    open spec fn env(&self) -> Env {
        with_table(self.writer.env(), lookup_table(self.name_map_lookup@))
    }

    proof fn lemma_bounded(&self) {
        self.writer.lemma_bounded();
    }

    fn get_custom_version(&self, guid: &Guid) -> (v: CustomVersion) {
        self.writer.get_custom_version(guid)
    }

    fn position(&self) -> (p: u64) {
        self.writer.position()
    }

    fn set_position(&mut self, pos: u64) {
        self.writer.set_position(pos)
    }

    fn seek(&mut self, style: SeekFrom) -> (r: Result<u64, Error>) {
        self.writer.seek(style)
    }

    fn get_engine_version(&self) -> (v: i32) {
        self.writer.get_engine_version()
    }

    fn get_map_key_override(&self) -> (map: &HashMap<String, String>) {
        self.writer.get_map_key_override()
    }

    fn get_map_value_override(&self) -> (map: &HashMap<String, String>) {
        self.writer.get_map_value_override()
    }

    fn get_import(&self, index: PackageIndex) -> (import: Option<&Import>) {
        self.writer.get_import(index)
    }

    fn get_export_class_type(&self, index: PackageIndex) -> (name: Option<FName>) {
        self.writer.get_export_class_type(index)
    }
}

impl<'a, Writer: AssetWriter> AssetWriter for NameTableWriter<'a, Writer> {
    fn write_property_guid(&mut self, guid: &Option<Guid>) -> (r: Result<(), Error>) {
        self.writer.write_property_guid(guid)
    }

    fn write_fname(&mut self, name: &FName) -> (r: Result<(), Error>) {
        let hash = hash_name(name.content.as_str());
        let slot = match self.name_map_lookup.get(&hash) {
            Some(slot) => *slot,
            None => return Err(Error::NoData(NoDataError::NameReference)),
        };
        let mut chunk = le::write_i32(slot);
        let suffix = le::write_i32(name.index);
        proof {
            lemma_enc_dec();
        }
        chunk.push(suffix[0]);
        chunk.push(suffix[1]);
        chunk.push(suffix[2]);
        chunk.push(suffix[3]);
        assert(chunk@ =~= enc_i32(slot) + enc_i32(name.index));
        self.writer.write_all(chunk.as_slice())
    }

    fn write_u8(&mut self, value: u8) -> (r: Result<(), Error>) {
        self.writer.write_u8(value)
    }

    fn write_i8(&mut self, value: i8) -> (r: Result<(), Error>) {
        self.writer.write_i8(value)
    }

    fn write_u16(&mut self, value: u16) -> (r: Result<(), Error>) {
        self.writer.write_u16(value)
    }

    fn write_i16(&mut self, value: i16) -> (r: Result<(), Error>) {
        self.writer.write_i16(value)
    }

    fn write_u32(&mut self, value: u32) -> (r: Result<(), Error>) {
        self.writer.write_u32(value)
    }

    fn write_i32(&mut self, value: i32) -> (r: Result<(), Error>) {
        self.writer.write_i32(value)
    }

    fn write_u64(&mut self, value: u64) -> (r: Result<(), Error>) {
        self.writer.write_u64(value)
    }

    fn write_i64(&mut self, value: i64) -> (r: Result<(), Error>) {
        self.writer.write_i64(value)
    }

    fn write_f32(&mut self, bits: u32) -> (r: Result<(), Error>) {
        self.writer.write_f32(bits)
    }

    fn write_f64(&mut self, bits: u64) -> (r: Result<(), Error>) {
        self.writer.write_f64(bits)
    }

    fn write_string(&mut self, string: &Option<String>) -> (r: Result<usize, Error>) {
        self.writer.write_string(string)
    }

    fn write_all(&mut self, buf: &[u8]) -> (r: Result<(), Error>) {
        self.writer.write_all(buf)
    }

    fn write_bool(&mut self, value: bool) -> (r: Result<(), Error>) {
        self.writer.write_bool(value)
    }
}

} // verus!
