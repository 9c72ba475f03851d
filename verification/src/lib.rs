//! Integer core of a voxel landscape: chunk volumes, ambient-occlusion levels,
//! quad triangulation, texture banding, the terrain height map, and the
//! walkable-cell navigation graph over it.

pub mod ecs;
pub mod scene;
pub mod voxel;
