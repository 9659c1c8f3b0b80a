//! A chunked voxel world, verified with Verus.
//!
//! - `world`: the voxel packed into 32 bits, chunks of 64 x 64 x 64 voxels
//!   with region and sphere fills, coordinates, and the index of chunks.
//! - `simulation`: the cellular automaton for fire, smoke and water, its
//!   generator and clock, and the functions that spawn elements.
//! - `volume`: a density field on a lattice, and the raster maps that a
//!   projection of it fills by marching one ray for each pixel.
//!
//! World-space quantities are fixed-point integers, 256 units to the voxel
//! edge, so every operation of the library is exact and every contract is
//! stated over mathematical integers. Nothing in the library panics: where an
//! input makes no sense, a function does nothing or returns nothing.

pub mod simulation;
pub mod volume;
pub mod world;
