//! Voxel terrain core: a seeded density field is turned into chunked
//! solid/air voxel grids, and each chunk is meshed into triangle buffers
//! by a per-face neighbor-visibility test.
//!
//! All mesh coordinates are integers in half-cell units: a cell centered
//! at `(x, y, z)` has its center at `(2x, 2y, 2z)` and its corners offset
//! by one half-cell unit along each axis. A renderer scales by one half
//! to recover unit cubes centered on integer cell coordinates.

pub mod chunk;
pub mod mesh;
pub mod world;
