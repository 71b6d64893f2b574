//! Core logic of a hexagonal overworld with per-cell voxel sub-worlds.
//!
//! The crate provides axial hex coordinates with pixel conversion and
//! rounding, the six-way neighbor direction table, ring / spiral / filled-disk
//! enumeration of cells, a layer-transition state machine between the hex map
//! and the voxel world, a 16x16x16 voxel solidity grid with a seeded
//! procedural fill, and a simple slot inventory.

pub mod cells;
pub mod iterators;
pub mod pixel;
pub mod rng;
pub mod voxel;
pub mod state;
pub mod inventory;
pub mod cursor;
