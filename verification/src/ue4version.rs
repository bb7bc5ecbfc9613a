//! Engine versions at which the on-disk layout changed.

use vstd::prelude::*;

verus! {

/// From this engine version on, every entry of a name table is followed by
/// two 16-bit hashes.
pub const VER_UE4_NAME_HASHES_SERIALIZED: i32 = 504;

/// From this engine version on, the bytecode of a struct export is decoded.
pub const VER_UE4_16: i32 = 513;

} // verus!
