//! Readers and writers: a byte stream together with the engine version, the
//! custom versions and the way names are resolved.

pub mod asset_trait;
pub mod asset_reader;
pub mod asset_writer;
pub mod lists;
pub mod raw_reader;
pub mod raw_writer;
