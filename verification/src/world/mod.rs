//! The voxel record, chunk storage and the chunk index.

pub mod chunk;
pub mod chunk_fill;
pub mod chunk_manager;
pub mod coords;
pub mod voxel;

pub use chunk::{BoundingBox, WorldChunk, CHUNK_SIZE, VOXELS_PER_CHUNK};
pub use chunk_manager::{ChunkId, ChunkManager};
pub use coords::{ChunkPos, LocalPos, WorldPos};
pub use voxel::{MaterialType, VoxelData};
