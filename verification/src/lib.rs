//! A world of voxels in chunks: a cubic grid container, chunks of terrain
//! generated from noise, the mesh of the visible faces of a chunk, and the
//! two stage pipeline that makes the meshes of a batch of chunks.
//!
//! Every function is verified against its contract. The modules `culling`
//! and `barrier` hold the laws that the contracts of meshing and of the
//! pipeline imply.
//!
//! Floating point numbers do not occur. Mesh coordinates are whole numbers
//! of half voxel edges, sample points are whole numbers of sixty-fourths,
//! and a noise sample is the bit pattern of a binary64 number.
pub mod traversal;
pub mod volume;
pub mod voxel;
pub mod vector;
pub mod direction;
pub mod filtering;
pub mod mesh;
pub mod chunk;
pub mod culling;
pub mod sample;
pub mod manager;
pub mod barrier;
