//! The plainest reader: a cursor and an engine version.

use crate::cursor::{Cursor, SeekFrom};
use crate::cursor_ext::CursorExt;
use crate::error::Error;
use crate::reader::asset_reader::AssetReader;
use crate::reader::asset_trait::{AssetTrait, CustomVersion, Env};
use crate::unreal_types::{FName, Guid, Import, PackageIndex};
use std::collections::HashMap;
use vstd::prelude::*;
use vstd::string::StringExecFns;

verus! {

/// What a reader or writer without name table and custom versions knows.
pub open spec fn raw_env(engine_version: i32) -> Env {
    Env {
        engine_version,
        custom_versions: Map::empty(),
        guids: false,
        table: None,
        imports: Seq::empty(),
        class_types: Map::empty(),
        map_key_override: Map::empty(),
        map_value_override: Map::empty(),
    }
}

/// Reads from a cursor. It knows no name table, so a name is read as a
/// string; it knows no custom version, no import and no class; it reads
/// no property identifiers.
pub struct RawReader {
    cursor: Cursor,
    engine_version: i32,
    empty_map: HashMap<String, String>,
}

impl RawReader {
    pub fn new(cursor: Cursor, engine_version: i32) -> (reader: RawReader)
        ensures
            reader.bytes() == cursor.bytes(),
            reader.pos() == cursor.pos(),
            reader.env() == raw_env(engine_version),
    {
        RawReader { cursor, engine_version, empty_map: HashMap::new() }
    }

    /// A raw reader has no name table.
    pub proof fn lemma_no_table(&self)
        ensures
            self.env().table is None,
    {
    }

    /// The cursor, giving up the reader.
    pub fn into_cursor(self) -> (cursor: Cursor)
        ensures
            cursor.bytes() == self.bytes(),
            cursor.pos() == self.pos(),
    {
        self.cursor
    }
}

impl AssetTrait for RawReader {
    closed spec fn bytes(&self) -> Seq<u8> {
        self.cursor.bytes()
    }

    closed spec fn pos(&self) -> u64 {
        self.cursor.pos()
    }

    closed spec fn env(&self) -> Env {
        Env {
            map_key_override: self.empty_map@,
            map_value_override: self.empty_map@,
            ..raw_env(self.engine_version)
        }
    }

    proof fn lemma_bounded(&self) {
        self.cursor.lemma_bounded();
    }

    fn get_custom_version(&self, guid: &Guid) -> (v: CustomVersion) {
        let none: Guid = [0u8; 16];
        assert(none@ =~= crate::stream::zeros(16));
        CustomVersion::new(none, 0)
    }

    fn position(&self) -> (p: u64) {
        self.cursor.position()
    }

    fn set_position(&mut self, pos: u64) {
        self.cursor.set_position(pos)
    }

    fn seek(&mut self, style: SeekFrom) -> (r: Result<u64, Error>) {
        self.cursor.seek(style)
    }

    fn get_engine_version(&self) -> (v: i32) {
        self.engine_version
    }

    fn get_map_key_override(&self) -> (map: &HashMap<String, String>) {
        &self.empty_map
    }

    fn get_map_value_override(&self) -> (map: &HashMap<String, String>) {
        &self.empty_map
    }

    fn get_import(&self, _index: PackageIndex) -> (import: Option<&Import>) {
        None
    }

    fn get_export_class_type(&self, _index: PackageIndex) -> (name: Option<FName>) {
        None
    }
}

impl AssetReader for RawReader {
    fn read_property_guid(&mut self) -> (r: Result<Option<Guid>, Error>) {
        Ok(None)
    }

    fn read_fname(&mut self) -> (r: Result<FName, Error>) {
        match self.cursor.read_string() {
            Ok(Some(text)) => Ok(FName::new(text, 0)),
            Ok(None) => {
                proof {
                    reveal_strlit("None");
                }
                let text = String::from_str("None");
                assert(text@ =~= crate::cursor_ext::none_name());
                Ok(FName::new(text, 0))
            },
            Err(e) => Err(e),
        }
    }

    fn read_u8(&mut self) -> (r: Result<u8, Error>) {
        self.cursor.read_u8()
    }

    fn read_i8(&mut self) -> (r: Result<i8, Error>) {
        self.cursor.read_i8()
    }

    fn read_u16(&mut self) -> (r: Result<u16, Error>) {
        self.cursor.read_u16()
    }

    fn read_i16(&mut self) -> (r: Result<i16, Error>) {
        self.cursor.read_i16()
    }

    fn read_u32(&mut self) -> (r: Result<u32, Error>) {
        self.cursor.read_u32()
    }

    fn read_i32(&mut self) -> (r: Result<i32, Error>) {
        self.cursor.read_i32()
    }

    fn read_u64(&mut self) -> (r: Result<u64, Error>) {
        self.cursor.read_u64()
    }

    fn read_i64(&mut self) -> (r: Result<i64, Error>) {
        self.cursor.read_i64()
    }

    fn read_f32(&mut self) -> (r: Result<u32, Error>) {
        self.cursor.read_u32()
    }

    fn read_f64(&mut self) -> (r: Result<u64, Error>) {
        self.cursor.read_u64()
    }

    fn read_string(&mut self) -> (r: Result<Option<String>, Error>) {
        self.cursor.read_string()
    }

    fn read_exact(&mut self, n: usize) -> (r: Result<Vec<u8>, Error>) {
        self.cursor.read_exact(n)
    }

    fn read_bool(&mut self) -> (r: Result<bool, Error>) {
        self.cursor.read_bool()
    }
}

} // verus!
