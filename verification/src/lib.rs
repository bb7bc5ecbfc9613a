//! Reader and writer for a versioned binary asset container and for the
//! asset registry that indexes such containers.
//!
//! Every executable function carries a contract over a mathematical model of
//! the byte stream: what is read is a function of the bytes and the cursor
//! position, and what is written is described as a sequence of bytes placed
//! at the cursor.
//!
//! The modules, from the bytes upwards:
//!
//! - [`error`]: what reading and writing can fail with;
//! - [`le`], [`stream`], [`cursor`], [`cursor_ext`]: integers, the model of a
//!   seekable stream, the stream in memory, and strings on it;
//! - [`unreal_types`], [`ue4version`], [`custom_version`]: names, links and
//!   identifiers, and the versions that decide what a file stores;
//! - [`reader`]: readers and writers that know versions and names;
//! - [`properties`], [`kismet`], [`fproperty`], [`uproperty`], [`exports`]:
//!   the typed values of a package and the objects that hold them;
//! - [`registry`]: the asset registry;
//! - [`round_trip`]: what is written is read back, and what is read is read
//!   again;
//! - [`version`], [`game_mod`]: the version of a mod and the choice of one.

pub mod cursor;
pub mod cursor_ext;
pub mod custom_version;
pub mod error;
pub mod exports;
pub mod fproperty;
pub mod game_mod;
pub mod kismet;
pub mod le;
pub mod properties;
pub mod reader;
pub mod registry;
pub mod round_trip;
pub mod stream;
pub mod ue4version;
pub mod unreal_types;
pub mod uproperty;
pub mod version;
