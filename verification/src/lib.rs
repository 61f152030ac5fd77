//! A persistent sparse voxel octree store.
//!
//! Each node of the octree describes a cubic region of space divided into
//! eight octants.  The crate provides the node-addressing codec (text and
//! bit-packed binary forms of a root-to-node path), the node and block
//! memory layout built from presence bitmasks and pointer sentinels, the
//! fixed-size attachment system with its level-of-detail averaging rules,
//! and the persistent header that ties a tree's schema and root together.

pub mod address;
pub mod attachment;
pub mod bitmask;
pub mod block;
pub mod error;
pub mod header;
pub mod io;
pub mod node;
pub mod octant;
