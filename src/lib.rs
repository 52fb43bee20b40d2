//! Chunked voxel storage with face-culled mesh generation.
//!
//! A world is split into cubic chunks of `CHUNK_DIMEN`³ block slots. Each
//! chunk counts its blocks per type and, when it has been changed, rebuilds
//! one mesh per block type in which faces hidden by a neighbouring block are
//! left out.

pub mod position;
pub mod model;
pub mod block;
pub mod registry;
pub mod mesh;
pub mod chunk;
pub mod world;
pub mod laws;

pub use block::{Block, BlockId, BlockInstance, ModelId, TextureId};
pub use chunk::{Chunk, CHUNK_BLOCK_COUNT};
pub use mesh::Mesh;
pub use model::{BlockMeshLocation, BlockModel, Vertex, SUBDIVISIONS};
pub use position::{BlockPosition, CHUNK_DIMEN};
pub use registry::{BlockRegistry, RegistryError};
pub use world::World;
