//! Retention for the region containers of a save.
//!
//! A container covers a grid of 32 by 32 cells. It starts with a directory
//! of four-byte entries, one for each cell, which name the 4096-byte sector
//! where the cell's record begins. A record is a five-byte header and a
//! zlib-compressed tag tree; the tree records how long the cell was
//! inhabited. A container whose cell was inhabited for less than a threshold
//! is to be removed.
//!
//! The library decides; it reads no file and removes none. [`Chunk::start`]
//! and [`Chunk::advance`] say which bytes of a container are wanted next and
//! what the bytes that came back amount to, and
//! [`Chunk::load_data_and_decode`] follows them over a container held in
//! memory. [`World::plan`] tells from the names in a directory which files
//! are containers, and of which cell.

pub mod bytes;
pub mod chunk;
pub mod coords;
pub mod frame;
pub mod inflate;
pub mod laws;
pub mod layout;
pub mod tree;
pub mod verdict;
pub mod world;

pub use crate::chunk::Chunk;
pub use crate::verdict::{Failure, Notice, Verdict};
pub use crate::world::World;
