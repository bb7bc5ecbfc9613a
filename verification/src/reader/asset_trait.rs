//! What readers and writers have in common, and the model that their
//! contracts are stated over.

use crate::cursor::{seek_target, SeekFrom};
use crate::cursor_ext::{
    lemma_string_advances, lemma_string_read_is_kept, lemma_string_round_trip, none_name,
    parse_string, ser_string, string_kept,
};
use crate::error::{Error, InvalidFileError, NoDataError};
use crate::le::{enc_i32, lemma_enc_dec};
use crate::stream::{
    enc_bool, has_at, lemma_has_at_concat, parse_bool, parse_i32, take, zeros, Parsed,
};
use crate::unreal_types::{FName, FNameView, Guid, Import, ImportView, PackageIndex};
use std::collections::HashMap;
use std::collections::hash_map::DefaultHasher;
use std::hash::Hasher;
use vstd::prelude::*;
use vstd::std_specs::hash::DefaultHasherAdditionalSpecFns;
use vstd::utf8::is_ascii_chars;

verus! {

/// The writes that hashing a text feeds to a hasher.
pub uninterp spec fn str_hash_writes(text: Seq<char>) -> Seq<Seq<u8>>;

/// `<str as Hash>::hash` on a `DefaultHasher`: feeds the hasher the writes
/// that stand for the text, behind what it was fed before.
#[verifier::external_body]
fn hash_str(text: &str, hasher: &mut DefaultHasher)
    ensures
        final(hasher)@ == old(hasher)@ + str_hash_writes(text@),
{
    std::hash::Hash::hash(text, hasher)
}

/// The 64-bit hash under which a name is filed in a name lookup.
pub open spec fn name_hash(text: Seq<char>) -> u64 {
    DefaultHasher::spec_finish(Seq::<Seq<u8>>::empty() + str_hash_writes(text))
}

/// Computes [`name_hash`].
pub fn hash_name(text: &str) -> (h: u64)
    ensures
        h == name_hash(text@),
{
    let mut hasher = DefaultHasher::new();
    hash_str(text, &mut hasher);
    hasher.finish()
}

/// A name table: the texts in the order of their indices, and the lookup
/// from the hash of a text to its index.
pub struct NameTable {
    pub names: Seq<Seq<char>>,
    pub lookup: Map<u64, i32>,
}

/// What a reader or writer knows besides its bytes and its position.
pub struct Env {
    /// The engine version of the file.
    pub engine_version: i32,
    /// The version of every custom version scheme of the file, by the bytes
    /// of the scheme's identifier.
    pub custom_versions: Map<Seq<u8>, i32>,
    /// Whether a property may carry an identifier on disk.
    pub guids: bool,
    /// The name table through which names are stored as indices; without
    /// one, a name is stored as its text.
    pub table: Option<NameTable>,
    /// The imports of the package, in the order of their links.
    pub imports: Seq<ImportView>,
    /// The name of the class of every object that has one, by its link.
    pub class_types: Map<i32, FNameView>,
    /// The kind of the keys of a map property that does not name it, by
    /// the name of the property.
    pub map_key_override: Map<String, String>,
    /// The kind of the values of a map property that does not name it, by
    /// the name of the property.
    pub map_value_override: Map<String, String>,
}

impl Env {
    /// The version of the scheme `guid`; zero where the file has none.
    pub open spec fn version_of(self, guid: Seq<u8>) -> i32 {
        if self.custom_versions.contains_key(guid) {
            self.custom_versions[guid]
        } else {
            0
        }
    }

    /// The import that a link leads to: for a negative link the import
    /// with the negated link less one as index, if there is one.
    pub open spec fn import_at(self, index: PackageIndex) -> Option<ImportView> {
        if index.index < 0 && -index.index - 1 < self.imports.len() {
            Some(self.imports[-index.index - 1])
        } else {
            None
        }
    }

    /// The name of the class of the object that a link leads to, if it is
    /// known.
    pub open spec fn class_type_at(self, index: PackageIndex) -> Option<FNameView> {
        if self.class_types.contains_key(index.index) {
            Some(self.class_types[index.index])
        } else {
            None
        }
    }

    /// The identifier reported for the scheme `guid`: itself, or sixteen
    /// zero bytes where the file has no such scheme.
    pub open spec fn guid_of(self, guid: Seq<u8>) -> Seq<u8> {
        if self.custom_versions.contains_key(guid) {
            guid
        } else {
            zeros(16)
        }
    }
}

/// The name that stands at `pos`. Without a name table it is a string, a
/// null string standing for `None`, and its suffix is zero. With a name
/// table it is an index into the table and a suffix.
pub open spec fn parse_fname(env: Env, bytes: Seq<u8>, pos: u64) -> Parsed<FNameView> {
    match env.table {
        None => match parse_string(bytes, pos) {
            Err(e) => Err(e),
            Ok((text, p)) => Ok(
                (
                    FNameView {
                        content: match text {
                            Some(t) => t,
                            None => none_name(),
                        },
                        index: 0,
                    },
                    p,
                ),
            ),
        },
        Some(table) => match parse_i32(bytes, pos) {
            Err(e) => Err(e),
            Ok((slot, p)) => match parse_i32(bytes, p) {
                Err(e) => Err(e),
                Ok((number, q)) => if 0 <= slot < table.names.len() {
                    Ok((FNameView { content: table.names[slot as int], index: number }, q))
                } else {
                    Err(Error::InvalidFile(InvalidFileError::NameIndex(slot)))
                },
            },
        },
    }
}

/// The bytes of a name on disk, where it can be written.
pub open spec fn ser_fname(env: Env, name: FNameView) -> Result<Seq<u8>, Error> {
    match env.table {
        None => Ok(ser_string(Some(name.content))),
        Some(table) => if table.lookup.contains_key(name_hash(name.content)) {
            Ok(enc_i32(table.lookup[name_hash(name.content)]) + enc_i32(name.index))
        } else {
            Err(Error::NoData(NoDataError::NameReference))
        },
    }
}

/// Reading a name ends at least four bytes behind where it started.
pub proof fn lemma_fname_advances(env: Env, bytes: Seq<u8>, pos: u64)
    requires
        bytes.len() <= u64::MAX,
    ensures
        parse_fname(env, bytes, pos) matches Ok((_, p)) ==> p >= pos + 4,
{
    lemma_string_advances(bytes, pos);
}

/// Reading a name ends at most two bytes behind the end of the stream:
/// the terminator of a string is passed over unread.
pub proof fn lemma_fname_within(env: Env, bytes: Seq<u8>, pos: u64)
    ensures
        parse_fname(env, bytes, pos) matches Ok((_, p)) ==> p <= bytes.len() + 2,
{
}

/// Whether a name that is written under `writing` is read back under
/// `reading`. Without a name table its suffix is zero and its text is a
/// string that is read back. With a name table the writer's lookup leads
/// from its text to a slot of the reader's table that holds the text.
pub open spec fn name_kept(reading: Env, writing: Env, name: FNameView) -> bool {
    match writing.table {
        None => name.index == 0 && string_kept(Some(name.content)),
        Some(table) => {
            let hash = name_hash(name.content);
            &&& table.lookup.contains_key(hash)
            &&& reading.table is Some
            &&& 0 <= table.lookup[hash] < reading.table->Some_0.names.len()
            &&& reading.table->Some_0.names[table.lookup[hash] as int] == name.content
        },
    }
}

/// Whether the name table leads from every text that it holds to a slot
/// that holds the text. A reader or writer without name table has nothing
/// to lead astray.
pub open spec fn table_kept(env: Env) -> bool {
    env.table matches Some(table) ==> forall|i: int|
        0 <= i < table.names.len() ==> {
            let hash = name_hash(#[trigger] table.names[i]);
            &&& table.lookup.contains_key(hash)
            &&& 0 <= table.lookup[hash] < table.names.len()
            &&& table.names[table.lookup[hash] as int] == table.names[i]
        }
}

/// Whether a writer writes the names that a reader reads as the reader
/// would: both resolve names in place, or both through the same lookup.
pub open spec fn agreed(reading: Env, writing: Env) -> bool {
    match reading.table {
        None => writing.table is None,
        Some(table) => writing.table matches Some(other) && other.lookup == table.lookup,
    }
}

/// Every name that is read can be written by a writer that agrees with
/// the reader, and is read back when it is.
pub proof fn lemma_fname_read_is_kept_by(reading: Env, writing: Env, bytes: Seq<u8>, pos: u64)
    requires
        table_kept(reading),
        agreed(reading, writing),
    ensures
        parse_fname(reading, bytes, pos) matches Ok((name, _)) ==> name_kept(
            reading,
            writing,
            name,
        ) && ser_fname(writing, name) is Ok,
{
    lemma_string_read_is_kept(bytes, pos);
    assert(is_ascii_chars(none_name()));
}

/// Every name that is read can be written, and is read back when it is.
pub proof fn lemma_fname_read_is_kept(env: Env, bytes: Seq<u8>, pos: u64)
    requires
        table_kept(env),
    ensures
        parse_fname(env, bytes, pos) matches Ok((name, _)) ==> name_kept(env, env, name)
            && ser_fname(env, name) is Ok,
{
    lemma_fname_read_is_kept_by(env, env, bytes, pos);
}

/// Whether what a reader knows and what a writer knows belong together:
/// they agree on the versions and on whether properties carry identifiers,
/// and either both or none of them resolve names through a name table.
pub open spec fn paired(reading: Env, writing: Env) -> bool {
    &&& reading.engine_version == writing.engine_version
    &&& reading.custom_versions == writing.custom_versions
    &&& reading.guids == writing.guids
    &&& reading.table is Some <==> writing.table is Some
}

/// A name that was written is read back.
pub proof fn lemma_fname_round_trip(
    reading: Env,
    writing: Env,
    bytes: Seq<u8>,
    pos: u64,
    name: FNameView,
)
    requires
        paired(reading, writing),
        bytes.len() <= u64::MAX,
        ser_fname(writing, name) is Ok,
        has_at(bytes, pos as int, ser_fname(writing, name)->Ok_0),
        name_kept(reading, writing, name),
    ensures
        parse_fname(reading, bytes, pos) == Ok::<(FNameView, u64), Error>(
            (name, (pos + ser_fname(writing, name)->Ok_0.len()) as u64),
        ),
{
    lemma_enc_dec();
    match writing.table {
        None => {
            lemma_string_round_trip(bytes, pos, Some(name.content));
        },
        Some(table) => {
            let slot = table.lookup[name_hash(name.content)];
            lemma_has_at_concat(bytes, pos as int, enc_i32(slot), enc_i32(name.index));
        },
    }
}

/// The identifier of a property at `pos`: one byte that tells whether
/// sixteen bytes of identifier follow. Where the file carries no
/// identifiers, nothing is read.
pub open spec fn parse_property_guid(env: Env, bytes: Seq<u8>, pos: u64) -> Parsed<
    Option<Seq<u8>>,
> {
    if !env.guids {
        Ok((None, pos))
    } else {
        match parse_bool(bytes, pos) {
            Err(e) => Err(e),
            Ok((present, p)) => if present {
                match take(bytes, p, 16) {
                    Err(e) => Err(e),
                    Ok((raw, q)) => Ok((Some(raw), q)),
                }
            } else {
                Ok((None, p))
            },
        }
    }
}

/// The bytes of a property's identifier on disk.
pub open spec fn ser_property_guid(env: Env, guid: Option<Seq<u8>>) -> Seq<u8> {
    if !env.guids {
        Seq::<u8>::empty()
    } else {
        match guid {
            Some(raw) => enc_bool(true) + raw,
            None => enc_bool(false),
        }
    }
}

/// A custom version: the identifier of a version scheme and the version of
/// the file under that scheme.
#[derive(Clone, Copy, Debug, PartialEq, Eq, Hash)]
pub struct CustomVersion {
    pub guid: Guid,
    pub version: i32,
}

/// What a [`CustomVersion`] stands for.
pub struct CustomVersionView {
    pub guid: Seq<u8>,
    pub version: i32,
}

impl DeepView for CustomVersion {
    type V = CustomVersionView;

    open spec fn deep_view(&self) -> CustomVersionView {
        CustomVersionView { guid: self.guid@, version: self.version }
    }
}

impl CustomVersion {
    pub fn new(guid: Guid, version: i32) -> (v: CustomVersion)
        ensures
            v.deep_view() == (CustomVersionView { guid: guid@, version }),
    {
        CustomVersion { guid, version }
    }
}

/// The part of a reader or writer that is neither reading nor writing: the
/// position and the versions.
pub trait AssetTrait {
    /// The bytes of the stream.
    spec fn bytes(&self) -> Seq<u8>;

    /// The position of the next read or write.
    spec fn pos(&self) -> u64;

    /// Versions and name resolution.
    spec fn env(&self) -> Env;

    /// The stream lies in memory.
    proof fn lemma_bounded(&self)
        ensures
            self.bytes().len() <= usize::MAX,
    ;

    /// The custom version of the file under the scheme `guid`.
    fn get_custom_version(&self, guid: &Guid) -> (v: CustomVersion)
        ensures
            v.version == self.env().version_of(guid@),
            v.guid@ == self.env().guid_of(guid@),
    ;

    fn position(&self) -> (p: u64)
        ensures
            p == self.pos(),
    ;

    fn set_position(&mut self, pos: u64)
        ensures
            final(self).pos() == pos,
            final(self).bytes() == old(self).bytes(),
            final(self).env() == old(self).env(),
    ;

    /// Moves the position. A target below zero or above the largest
    /// position is refused and leaves the position where it was.
    fn seek(&mut self, style: SeekFrom) -> (r: Result<u64, Error>)
        ensures
            final(self).bytes() == old(self).bytes(),
            final(self).env() == old(self).env(),
            r == seek_target(old(self).bytes().len(), old(self).pos(), style),
            match r {
                Ok(p) => final(self).pos() == p,
                Err(_) => final(self).pos() == old(self).pos(),
            },
    ;

    fn get_engine_version(&self) -> (v: i32)
        ensures
            v == self.env().engine_version,
    ;

    /// The kinds of the keys of map properties that do not name them.
    fn get_map_key_override(&self) -> (map: &HashMap<String, String>)
        ensures
            map@ == self.env().map_key_override,
    ;

    /// The kinds of the values of map properties that do not name them.
    fn get_map_value_override(&self) -> (map: &HashMap<String, String>)
        ensures
            map@ == self.env().map_value_override,
    ;

    /// The import that a link leads to.
    fn get_import(&self, index: PackageIndex) -> (import: Option<&Import>)
        ensures
            import.deep_view() == self.env().import_at(index),
    ;

    /// The name of the class of the object that a link leads to.
    fn get_export_class_type(&self, index: PackageIndex) -> (name: Option<FName>)
        ensures
            name.deep_view() == self.env().class_type_at(index),
    ;
}

} // verus!
