//! A sparse, chunked voxel-terrain store with an incremental surface-extraction
//! (meshing) engine.
//!
//! Terrain is stored as a sparse map from chunk coordinates to fixed-size
//! chunks of voxels.  Edits mark the affected chunks (and, on chunk
//! boundaries, their neighbours) dirty; a meshing pass drains the dirty set
//! and rebuilds the triangle surface of each dirty chunk by corner sampling,
//! consulting up to seven neighbouring chunks so that the surface is stitched
//! seamlessly across chunk boundaries.
//!
//! Geometry is emitted in fixed-point units so that every quantity is an
//! integer: vertex positions in half-units, normals in whole units, texture
//! coordinates in sixteenths of the palette texture.  A rendering front end
//! divides these out when uploading the buffers.

pub mod chunk;
pub mod color;
pub mod mesh;
pub mod mesh_builder;
pub mod terrain;
pub mod tile;
