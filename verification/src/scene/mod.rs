//! The terrain height map, its chunk volumes, and the navigation graph over it.

pub mod nav;
pub mod terrain;
