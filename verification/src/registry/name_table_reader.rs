//! A reader that resolves names through a name table of its own.

use crate::cursor::SeekFrom;
use crate::cursor_ext::parse_string;
use crate::error::{Error, InvalidFileError};
use crate::reader::asset_reader::AssetReader;
use crate::reader::asset_trait::{hash_name, name_hash, AssetTrait, CustomVersion, Env, NameTable};
use crate::stream::{parse_i32, parse_i64, parse_u16, Parsed};
use crate::ue4version::VER_UE4_NAME_HASHES_SERIALIZED;
use crate::unreal_types::{FName, Guid, Import, PackageIndex};
use std::collections::HashMap;
use vstd::prelude::*;

verus! {

broadcast use vstd::std_specs::hash::group_hash_axioms;

/// What lies behind the text of an entry of a name table: two 16-bit
/// hashes from engine version [`VER_UE4_NAME_HASHES_SERIALIZED`] on,
/// nothing before.
pub open spec fn parse_entry_hashes(engine_version: i32, bytes: Seq<u8>, pos: u64) -> Parsed<()> {
    if engine_version >= VER_UE4_NAME_HASHES_SERIALIZED {
        match parse_u16(bytes, pos) {
            Err(e) => Err(e),
            Ok((_, p)) => match parse_u16(bytes, p) {
                Err(e) => Err(e),
                Ok((_, q)) => Ok(((), q)),
            },
        }
    } else {
        Ok(((), pos))
    }
}

/// The entries of a name table from index `i` on, read from `pos` on,
/// behind the entries of `table`. Every entry is a string that is not
/// null and what lies behind it. The lookup leads from the hash of every
/// text to the index of its last entry.
pub open spec fn parse_names(
    engine_version: i32,
    bytes: Seq<u8>,
    pos: u64,
    count: i32,
    i: i32,
    table: NameTable,
) -> Parsed<NameTable>
    decreases count - i,
{
    if i >= count {
        Ok((table, pos))
    } else {
        match parse_string(bytes, pos) {
            Err(e) => Err(e),
            Ok((None, _)) => Err(Error::InvalidFile(InvalidFileError::MissingName(i))),
            Ok((Some(name), p1)) => match parse_entry_hashes(engine_version, bytes, p1) {
                Err(e) => Err(e),
                Ok((_, p2)) => parse_names(
                    engine_version,
                    bytes,
                    p2,
                    count,
                    (i + 1) as i32,
                    NameTable {
                        names: table.names.push(name),
                        lookup: table.lookup.insert(name_hash(name), i),
                    },
                ),
            },
        }
    }
}

/// The name table without entries.
pub open spec fn empty_table() -> NameTable {
    NameTable { names: Seq::empty(), lookup: Map::empty() }
}

/// The name table that the header at `pos` leads to: the header is the
/// 64-bit offset of the table; where it is positive, the table stands
/// there as the number of its entries and the entries, and else the table
/// is empty. Reading goes on behind the header.
pub open spec fn parse_name_table(engine_version: i32, bytes: Seq<u8>, pos: u64) -> Parsed<
    NameTable,
> {
    match parse_i64(bytes, pos) {
        Err(e) => Err(e),
        Ok((name_offset, p)) => if name_offset > 0 {
            match parse_i32(bytes, name_offset as u64) {
                Err(e) => Err(e),
                Ok((name_count, q)) => if name_count < 0 {
                    Err(Error::InvalidFile(InvalidFileError::CorruptNameTable))
                } else {
                    match parse_names(engine_version, bytes, q, name_count, 0, empty_table()) {
                        Err(e) => Err(e),
                        Ok((table, _)) => Ok((table, p)),
                    }
                },
            }
        } else {
            Ok((empty_table(), p))
        },
    }
}

/// What a reader knows that resolves names through `table` and knows
/// everything else as `env` does.
pub open spec fn with_table(env: Env, table: NameTable) -> Env {
    Env { table: Some(table), ..env }
}

/// The texts of a list of strings.
pub open spec fn texts(names: Seq<String>) -> Seq<Seq<char>> {
    Seq::new(names.len(), |i: int| names[i]@)
}

/// A reader over another reader that reads a name as an index into its
/// name table and a suffix. Everything else it leaves to the reader that
/// it holds.
pub struct NameTableReader<Reader: AssetReader> {
    pub reader: Reader,
    pub name_map: Vec<String>,
    pub name_map_lookup: HashMap<u64, i32>,
}

impl<Reader: AssetReader> NameTableReader<Reader> {
    /// The name table of this reader.
    pub open spec fn table(&self) -> NameTable {
        NameTable { names: texts(self.name_map@), lookup: self.name_map_lookup@ }
    }

    /// Reads the name table that the header at the position leads to, and
    /// goes on behind the header.
    #[verifier::loop_isolation(false)]
    pub fn new(reader: Reader) -> (r: Result<NameTableReader<Reader>, Error>)
        ensures
            match parse_name_table(reader.env().engine_version, reader.bytes(), reader.pos()) {
                Ok((table, p)) => r matches Ok(found) && found.reader.bytes() == reader.bytes()
                    && found.reader.env() == reader.env() && found.reader.pos() == p
                    && found.table() == table,
                Err(e) => r matches Err(found) && found == e,
            },
    {
        let mut reader = reader;
        let ghost bytes = reader.bytes();
        let ghost env = reader.env();
        let name_offset = match reader.read_i64() {
            Ok(v) => v,
            Err(e) => return Err(e),
        };
        let mut name_map: Vec<String> = Vec::new();
        let mut name_map_lookup: HashMap<u64, i32> = HashMap::new();
        assert(texts(name_map@) =~= Seq::<Seq<char>>::empty());
        if name_offset > 0 {
            let original_offset = reader.position();
            let _ = reader.seek(SeekFrom::Start(name_offset as u64));
            let name_count = match reader.read_i32() {
                Ok(v) => v,
                Err(e) => return Err(e),
            };
            if name_count < 0 {
                return Err(Error::InvalidFile(InvalidFileError::CorruptNameTable));
            }
            let ghost first = reader.pos();
            let engine_version = reader.get_engine_version();
            let mut i: i32 = 0;
            while i < name_count
                invariant
                    0 <= i <= name_count,
                    reader.bytes() == bytes,
                    reader.env() == env,
                    engine_version == env.engine_version,
                    parse_names(engine_version, bytes, first, name_count, 0, empty_table())
                        == parse_names(
                        engine_version,
                        bytes,
                        reader.pos(),
                        name_count,
                        i,
                        NameTable { names: texts(name_map@), lookup: name_map_lookup@ },
                    ),
                decreases name_count - i,
            {
                let ghost before = texts(name_map@);
                let name = match reader.read_string() {
                    Ok(Some(name)) => name,
                    Ok(None) => return Err(Error::InvalidFile(InvalidFileError::MissingName(i))),
                    Err(e) => return Err(e),
                };
                name_map_lookup.insert(hash_name(name.as_str()), i);
                if engine_version >= VER_UE4_NAME_HASHES_SERIALIZED {
                    match reader.read_u16() {
                        Ok(_) => {},
                        Err(e) => return Err(e),
                    }
                    match reader.read_u16() {
                        Ok(_) => {},
                        Err(e) => return Err(e),
                    }
                }
                name_map.push(name);
                assert(texts(name_map@) =~= before.push(name@));
                i = i + 1;
            }
            let _ = reader.seek(SeekFrom::Start(original_offset));
        }
        Ok(NameTableReader { reader, name_map, name_map_lookup })
    }
}

impl<Reader: AssetReader> AssetTrait for NameTableReader<Reader> {
    open spec fn bytes(&self) -> Seq<u8> {
        self.reader.bytes()
    }

    open spec fn pos(&self) -> u64 {
        self.reader.pos()
    }

    open spec fn env(&self) -> Env {
        with_table(self.reader.env(), self.table())
    }

    proof fn lemma_bounded(&self) {
        self.reader.lemma_bounded();
    }

    fn get_custom_version(&self, guid: &Guid) -> (v: CustomVersion) {
        self.reader.get_custom_version(guid)
    }

    fn position(&self) -> (p: u64) {
        self.reader.position()
    }

    fn set_position(&mut self, pos: u64) {
        self.reader.set_position(pos)
    }

    fn seek(&mut self, style: SeekFrom) -> (r: Result<u64, Error>) {
        self.reader.seek(style)
    }

    fn get_engine_version(&self) -> (v: i32) {
        self.reader.get_engine_version()
    }

    fn get_map_key_override(&self) -> (map: &HashMap<String, String>) {
        self.reader.get_map_key_override()
    }

    fn get_map_value_override(&self) -> (map: &HashMap<String, String>) {
        self.reader.get_map_value_override()
    }

    fn get_import(&self, index: PackageIndex) -> (import: Option<&Import>) {
        self.reader.get_import(index)
    }

    fn get_export_class_type(&self, index: PackageIndex) -> (name: Option<FName>) {
        self.reader.get_export_class_type(index)
    }
}

impl<Reader: AssetReader> AssetReader for NameTableReader<Reader> {
    fn read_property_guid(&mut self) -> (r: Result<Option<Guid>, Error>) {
        self.reader.read_property_guid()
    }

    fn read_fname(&mut self) -> (r: Result<FName, Error>) {
        let name_index = match self.reader.read_i32() {
            Ok(v) => v,
            Err(e) => return Err(e),
        };
        let number = match self.reader.read_i32() {
            Ok(v) => v,
            Err(e) => return Err(e),
        };
        if name_index < 0 || name_index as usize >= self.name_map.len() {
            return Err(Error::InvalidFile(InvalidFileError::NameIndex(name_index)));
        }
        let name = self.name_map[name_index as usize].clone();
        Ok(FName::new(name, number))
    }

    fn read_u8(&mut self) -> (r: Result<u8, Error>) {
        self.reader.read_u8()
    }

    fn read_i8(&mut self) -> (r: Result<i8, Error>) {
        self.reader.read_i8()
    }

    fn read_u16(&mut self) -> (r: Result<u16, Error>) {
        self.reader.read_u16()
    }

    fn read_i16(&mut self) -> (r: Result<i16, Error>) {
        self.reader.read_i16()
    }

    fn read_u32(&mut self) -> (r: Result<u32, Error>) {
        self.reader.read_u32()
    }

    fn read_i32(&mut self) -> (r: Result<i32, Error>) {
        self.reader.read_i32()
    }

    fn read_u64(&mut self) -> (r: Result<u64, Error>) {
        self.reader.read_u64()
    }

    fn read_i64(&mut self) -> (r: Result<i64, Error>) {
        self.reader.read_i64()
    }

    fn read_f32(&mut self) -> (r: Result<u32, Error>) {
        self.reader.read_f32()
    }

    fn read_f64(&mut self) -> (r: Result<u64, Error>) {
        self.reader.read_f64()
    }

    fn read_string(&mut self) -> (r: Result<Option<String>, Error>) {
        self.reader.read_string()
    }

    fn read_exact(&mut self, n: usize) -> (r: Result<Vec<u8>, Error>) {
        self.reader.read_exact(n)
    }

    fn read_bool(&mut self) -> (r: Result<bool, Error>) {
        self.reader.read_bool()
    }
}

} // verus!
