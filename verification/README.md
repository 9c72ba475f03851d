# voxel_scene

The integer core of a voxel landscape, verified with Verus.

- `src/voxel.rs` — the stand-alone chunk helpers: the AO setting, per-corner
  AO levels, quad triangulation, elevation banding of texture layers.
- `src/scene/terrain.rs` — generator counts and their sanitizing, the height
  map, the per-voxel hash, chunk lookup, the padded 34³ chunk volumes (filled
  from the height map, sampled for AO).
- `src/scene/nav.rs` — the walkable-cell graph (a `pathfinding` grid) and
  shortest routes over it (`pathfinding`'s A*).
- `src/ecs/resources.rs` — the camera's held-key state and the AO setting
  resource.
- `app/` — the floating-point side: noise-driven heights, world-space
  placement, chunk meshing with `block-mesh`, the navigation overlay, agent
  routes and the free-fly camera.
