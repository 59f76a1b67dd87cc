//! Editing session for a rectangular region of a voxel world.
//!
//! The crate keeps a bounding box tight around the blocks an operator places
//! and removes, moves a reference point around it, and captures the region
//! into a snapshot that can be written back elsewhere.

pub mod coord;
pub mod editor;
pub mod events;
pub mod origin;
pub mod path;
pub mod section;
pub mod structure;
pub mod world;
