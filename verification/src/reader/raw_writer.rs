//! The plainest writer: a cursor and an engine version.

use crate::cursor::{Cursor, SeekFrom};
use crate::cursor_ext::CursorExt;
use crate::error::Error;
use crate::reader::asset_trait::{AssetTrait, CustomVersion, Env};
use crate::reader::asset_writer::AssetWriter;
use crate::reader::raw_reader::raw_env;
use crate::unreal_types::{FName, Guid, Import, PackageIndex};
use std::collections::HashMap;
use vstd::prelude::*;

verus! {

/// Writes to a cursor. It knows no name table, so a name is written as the
/// string of its text; it knows no custom version, no import and no
/// class; it writes no property identifiers.
pub struct RawWriter {
    cursor: Cursor,
    engine_version: i32,
    empty_map: HashMap<String, String>,
}

impl RawWriter {
    pub fn new(cursor: Cursor, engine_version: i32) -> (writer: RawWriter)
        ensures
            writer.bytes() == cursor.bytes(),
            writer.pos() == cursor.pos(),
            writer.env() == raw_env(engine_version),
    {
        RawWriter { cursor, engine_version, empty_map: HashMap::new() }
    }

    /// A raw writer has no name table.
    pub proof fn lemma_no_table(&self)
        ensures
            self.env().table is None,
    {
    }

    /// The cursor, giving up the writer.
    pub fn into_cursor(self) -> (cursor: Cursor)
        ensures
            cursor.bytes() == self.bytes(),
            cursor.pos() == self.pos(),
    {
        self.cursor
    }
}

impl AssetTrait for RawWriter {
    closed spec fn bytes(&self) -> Seq<u8> {
        self.cursor.bytes()
    }

    closed spec fn pos(&self) -> u64 {
        self.cursor.pos()
    }

    closed spec fn env(&self) -> Env {
        Env {
            map_key_override: self.empty_map@,
            map_value_override: self.empty_map@,
            ..raw_env(self.engine_version)
        }
    }

    proof fn lemma_bounded(&self) {
        self.cursor.lemma_bounded();
    }

    fn get_custom_version(&self, guid: &Guid) -> (v: CustomVersion) {
        let none: Guid = [0u8; 16];
        assert(none@ =~= crate::stream::zeros(16));
        CustomVersion::new(none, 0)
    }

    fn position(&self) -> (p: u64) {
        self.cursor.position()
    }

    fn set_position(&mut self, pos: u64) {
        self.cursor.set_position(pos)
    }

    fn seek(&mut self, style: SeekFrom) -> (r: Result<u64, Error>) {
        self.cursor.seek(style)
    }

    fn get_engine_version(&self) -> (v: i32) {
        self.engine_version
    }

    fn get_map_key_override(&self) -> (map: &HashMap<String, String>) {
        &self.empty_map
    }

    fn get_map_value_override(&self) -> (map: &HashMap<String, String>) {
        &self.empty_map
    }

    fn get_import(&self, _index: PackageIndex) -> (import: Option<&Import>) {
        None
    }

    fn get_export_class_type(&self, _index: PackageIndex) -> (name: Option<FName>) {
        None
    }
}

impl AssetWriter for RawWriter {
    fn write_property_guid(&mut self, guid: &Option<Guid>) -> (r: Result<(), Error>) {
        let nothing: Vec<u8> = Vec::new();
        self.cursor.write_all(nothing.as_slice())
    }

    fn write_fname(&mut self, name: &FName) -> (r: Result<(), Error>) {
        let text = Some(name.content.clone());
        match self.cursor.write_string(&text) {
            Ok(_) => Ok(()),
            Err(e) => Err(e),
        }
    }

    fn write_u8(&mut self, value: u8) -> (r: Result<(), Error>) {
        self.cursor.write_u8(value)
    }

    fn write_i8(&mut self, value: i8) -> (r: Result<(), Error>) {
        self.cursor.write_i8(value)
    }

    fn write_u16(&mut self, value: u16) -> (r: Result<(), Error>) {
        self.cursor.write_u16(value)
    }

    fn write_i16(&mut self, value: i16) -> (r: Result<(), Error>) {
        self.cursor.write_i16(value)
    }

    fn write_u32(&mut self, value: u32) -> (r: Result<(), Error>) {
        self.cursor.write_u32(value)
    }

    fn write_i32(&mut self, value: i32) -> (r: Result<(), Error>) {
        self.cursor.write_i32(value)
    }

    fn write_u64(&mut self, value: u64) -> (r: Result<(), Error>) {
        self.cursor.write_u64(value)
    }

    fn write_i64(&mut self, value: i64) -> (r: Result<(), Error>) {
        self.cursor.write_i64(value)
    }

    fn write_f32(&mut self, bits: u32) -> (r: Result<(), Error>) {
        self.cursor.write_u32(bits)
    }

    fn write_f64(&mut self, bits: u64) -> (r: Result<(), Error>) {
        self.cursor.write_u64(bits)
    }

    fn write_string(&mut self, string: &Option<String>) -> (r: Result<usize, Error>) {
        self.cursor.write_string(string)
    }

    fn write_all(&mut self, buf: &[u8]) -> (r: Result<(), Error>) {
        self.cursor.write_all(buf)
    }

    fn write_bool(&mut self, value: bool) -> (r: Result<(), Error>) {
        self.cursor.write_bool(value)
    }
}

} // verus!
