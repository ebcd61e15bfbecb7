//! Voxel-chunk surface extraction.
//!
//! Converts a fixed-size 16 x 16 x 16 grid of typed voxels into renderable
//! triangle-mesh buffers (positions, normals, texture coordinates, 16-bit
//! indices), using neighbor-aware face culling and a pluggable meshing
//! strategy: a naive one-quad-per-visible-face mesher and a greedy mesher
//! that merges coplanar same-material faces into larger rectangles.
//!
//! All geometry is integral (voxel corners, unit normals, texel extents), so
//! the host converts the buffers to its floating-point vertex format.

pub mod buffer;
pub mod chunk;
pub mod counting;
pub mod direction;
pub mod emitter;
pub mod greedy;
pub mod laws;
pub mod material;
pub mod mesher;
pub mod occlusion;
