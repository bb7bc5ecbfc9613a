//! What an asset registry is made of.

pub mod asset_data;
pub mod asset_package_data;
pub mod depends_node;


pub mod md5_hash;
