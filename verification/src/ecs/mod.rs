//! Shared per-frame state.

pub mod resources;
