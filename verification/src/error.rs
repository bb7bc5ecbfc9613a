//! Error values of the codec.

use vstd::prelude::*;

verus! {

/// Failure of the underlying byte stream.
#[derive(Clone, Copy, Debug, PartialEq, Eq, Structural)]
pub enum IoError {
    /// A read asked for more bytes than the stream holds behind the cursor.
    UnexpectedEof,
    /// A position that cannot be represented: a seek below zero or past the
    /// largest position, or a write whose end does not fit in memory.
    InvalidInput,
}

/// Structural violation found in a file.
#[derive(Clone, Copy, Debug, PartialEq, Eq, Structural)]
pub enum InvalidFileError {
    /// A string was declared with a length outside `[-131072, 131072]`.
    StringLength(i32),
    /// The name table declares a negative number of entries.
    CorruptNameTable,
    /// The name table entry with this index is a null string.
    MissingName(i32),
    /// A name index that lies outside the name table.
    NameIndex(i32),
    /// A byte property declared with a length that is none of 0, 1 and 8.
    ByteLength(i64),
    /// A registry version that is older than the oldest supported layout.
    UnsupportedRegistryVersion(i32),
    /// An ordinal that names no registry version.
    UnknownRegistryVersion(i32),
    /// An ordinal that names no blend function.
    UnknownBlendFunction(u8),
    /// A token that names no bytecode instruction.
    UnknownOpcode(u8),
    /// A dependency that leads to no node of the registry.
    DependencyIndex(i32),
}

/// Misuse of a property serializer.
#[derive(Clone, Copy, Debug, PartialEq, Eq, Structural)]
pub enum PropertyError {
    /// A header was requested of a property that was read without one.
    Headerless,
    /// The type name of a property tag names no known property kind.
    UnknownType,
}

/// A field of the registry that only some versions carry.
#[derive(Clone, Copy, Debug, PartialEq, Eq, Structural)]
pub enum RegistryField {
    NameMapLookup,
    NameMap,
    CookedHash,
    Ue5Version,
    CustomVersions,
    ImportedClasses,
}

/// Failure specific to the asset registry.
#[derive(Clone, Copy, Debug, PartialEq, Eq, Structural)]
pub enum RegistryError {
    /// The field is required by the registry version with this ordinal but absent.
    Version(RegistryField, i32),
}

/// Data that a writer needs and does not find.
#[derive(Clone, Copy, Debug, PartialEq, Eq, Structural)]
pub enum NoDataError {
    /// A struct export holds neither decoded bytecode nor raw bytes.
    Bytecode,
    /// A name is written through a name table that does not hold it.
    NameReference,
    /// A field is written without the link that its version stores.
    FieldNext,
}

/// Everything that reading or writing can fail with.
#[derive(Clone, Copy, Debug, PartialEq, Eq, Structural)]
pub enum Error {
    InvalidFile(InvalidFileError),
    Io(IoError),
    Property(PropertyError),
    Registry(RegistryError),
    NoData(NoDataError),
    /// The code units of a string are not well-formed UTF-16.
    Utf16,
}

impl Error {
    /// The error of a read past the end of the stream.
    pub open spec fn eof() -> Error {
        Error::Io(IoError::UnexpectedEof)
    }

    /// The error of a position or length that cannot be represented.
    pub open spec fn invalid_input() -> Error {
        Error::Io(IoError::InvalidInput)
    }
}

} // verus!
