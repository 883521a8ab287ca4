//! A virtual, multi-rooted tree of filesystem paths in which every tree node,
//! every owned path buffer and every interned path is addressed by a compact
//! numeric identifier.

pub mod filesystems;
pub mod lookups;
pub mod node;
pub mod path;
pub mod path_index;
mod seal;
pub mod state;
pub mod unique_id;
