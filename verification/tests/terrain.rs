use voxel_scene::scene::terrain::{
    ao_level, chunk_coord_of_cell, corner_ao_levels, fill_chunk, hash24, is_solid, quad_indices,
    fill_columns, Heightmap, HeightmapError, PADDED_COLUMNS, TerrainCounts, VoxelSettings, CHUNK, MAX_FOXES, MAX_GRID,
    MAX_TREES, MIN_TERRAIN_HEIGHT, PADDED, PADDED_VOLUME,
};

fn idx(x: u32, y: u32, z: u32) -> usize {
    (x + 34 * y + 34 * 34 * z) as usize
}

fn flat(grid: u32, h: u32) -> Heightmap {
    let e = (grid * CHUNK) as usize;
    Heightmap::from_heights(grid, vec![h; e * e]).unwrap()
}

#[test]
fn terrain_voxel_settings_toggle() {
    let mut s = VoxelSettings::new(false);
    assert_eq!(s.ao_enabled, 0);
    s.toggle();
    assert_eq!(s.ao_enabled, 1);
    s.toggle();
    assert_eq!(s.ao_enabled, 0);
}

#[test]
fn terrain_ao_and_quads_match_the_standalone_versions() {
    assert_eq!(ao_level(true, false, true), 1);
    assert_eq!(ao_level(false, false, false), 3);
    assert_eq!(quad_indices(0, true, true), [0, 1, 3, 0, 3, 2]);
    assert_eq!(quad_indices(8, false, false), [8, 10, 9, 9, 10, 11]);
}

#[test]
fn from_heights_rejects_bad_grids() {
    assert_eq!(Heightmap::from_heights(0, vec![]).err(), Some(HeightmapError::GridSize));
    assert_eq!(
        Heightmap::from_heights(MAX_GRID + 1, vec![2; 16]).err(),
        Some(HeightmapError::GridSize)
    );
}

#[test]
fn from_heights_rejects_wrong_length() {
    assert_eq!(Heightmap::from_heights(1, vec![2; 10]).err(), Some(HeightmapError::Length));
    assert_eq!(Heightmap::from_heights(1, vec![2; 1025]).err(), Some(HeightmapError::Length));
}

#[test]
fn from_heights_rejects_out_of_range_columns() {
    let mut h = vec![5u32; 1024];
    h[17] = MIN_TERRAIN_HEIGHT - 1;
    assert_eq!(Heightmap::from_heights(1, h).err(), Some(HeightmapError::HeightOutOfRange));
    let mut h = vec![5u32; 1024];
    h[1023] = CHUNK + 1;
    assert_eq!(Heightmap::from_heights(1, h).err(), Some(HeightmapError::HeightOutOfRange));
    let mut h = vec![5u32; 1024];
    h[0] = CHUNK;
    h[1] = MIN_TERRAIN_HEIGHT;
    assert!(Heightmap::from_heights(1, h).is_ok());
}

#[test]
fn heightmap_lookup_is_row_major_and_defaults_outside() {
    let mut h = vec![3u32; 64 * 64];
    h[5 * 64 + 7] = 20;
    let hm = Heightmap::from_heights(2, h).unwrap();
    assert_eq!(hm.grid(), 2);
    assert_eq!(hm.extent(), 64);
    assert_eq!(hm.height(7, 5), 20);
    assert_eq!(hm.height(5, 7), 3);
    assert_eq!(hm.height(-1, 0), MIN_TERRAIN_HEIGHT);
    assert_eq!(hm.height(0, 64), MIN_TERRAIN_HEIGHT);
    assert_eq!(hm.height(i64::MAX, i64::MIN), MIN_TERRAIN_HEIGHT);
}

#[test]
fn clamp_cell_clamps_into_the_grid() {
    let hm = flat(1, 4);
    assert_eq!(hm.clamp_cell(-3, 40), (0, 31));
    assert_eq!(hm.clamp_cell(10, 12), (10, 12));
    assert_eq!(hm.clamp_cell(31, -1), (31, 0));
}

#[test]
fn chunk_coord_of_cell_finds_the_chunk() {
    assert_eq!(chunk_coord_of_cell(0, 0, 4), Some((0, 0)));
    assert_eq!(chunk_coord_of_cell(31, 32, 4), Some((0, 1)));
    assert_eq!(chunk_coord_of_cell(127, 100, 4), Some((3, 3)));
    assert_eq!(chunk_coord_of_cell(128, 0, 4), None);
    assert_eq!(chunk_coord_of_cell(-1, 5, 4), None);
}

#[test]
fn hash24_known_values() {
    assert_eq!(hash24(0, 0, 0, 0), 12237076);
    assert_eq!(hash24(0, 0, 0, 42), 251305);
    assert_eq!(hash24(1, 2, 3, 42), 3965457);
    assert_eq!(hash24(-1, -5, 7, 1234), 15817828);
    assert_eq!(hash24(5, 0, 1, 42), 15511386);
}

#[test]
fn hash24_stays_below_two_to_the_24() {
    for i in -50..50i64 {
        assert!(hash24(i, i * 7, -i, 99) < 1 << 24);
    }
}

#[test]
fn fill_chunk_single_world_chunk() {
    let mut h = vec![2u32; 1024];
    h[3 * 32 + 4] = 9; // column (4, 3)
    let hm = Heightmap::from_heights(1, h).unwrap();
    let v = fill_chunk(&hm, 0, 0);
    assert_eq!(v.len(), PADDED_VOLUME);
    // Padded coords are global + 1.
    assert!(v[idx(1, 1, 1)]);
    assert!(v[idx(1, 2, 1)]);
    assert!(!v[idx(1, 3, 1)]);
    assert!(v[idx(5, 9, 4)]);
    assert!(!v[idx(5, 10, 4)]);
    // Floor and top layers stay empty.
    assert!(!v[idx(5, 0, 4)]);
    assert!(!v[idx(5, PADDED - 1, 4)]);
    // Border columns beyond the grid stay empty.
    assert!(!v[idx(0, 1, 5)]);
    assert!(!v[idx(33, 1, 5)]);
    assert!(!v[idx(5, 1, 33)]);
    let solid = v.iter().filter(|b| **b).count();
    assert_eq!(solid, 1024 * 2 + 7);
}

#[test]
fn fill_chunk_borders_mirror_neighbours() {
    let e = 64usize;
    let mut h = vec![2u32; e * e];
    h[10 * e + 31] = 12; // last column of chunk 0 along x
    h[10 * e + 32] = 7; // first column of chunk 1 along x
    let hm = Heightmap::from_heights(2, h).unwrap();
    let a = fill_chunk(&hm, 0, 0);
    let b = fill_chunk(&hm, 32, 0);
    for y in 0..PADDED {
        assert_eq!(a[idx(33, y, 11)], b[idx(1, y, 11)]);
        assert_eq!(b[idx(0, y, 11)], a[idx(32, y, 11)]);
    }
    assert!(a[idx(33, 7, 11)]);
    assert!(!a[idx(33, 8, 11)]);
    assert!(b[idx(0, 12, 11)]);
}

#[test]
fn is_solid_treats_outside_as_empty() {
    let hm = flat(1, 3);
    let v = fill_chunk(&hm, 0, 0);
    assert!(is_solid(&v, 1, 1, 1));
    assert!(is_solid(&v, 32, 3, 32));
    assert!(!is_solid(&v, 32, 4, 32));
    assert!(!is_solid(&v, -1, 1, 1));
    assert!(!is_solid(&v, 1, 34, 1));
    assert!(!is_solid(&v, 1, 1, i32::MAX));
}

#[test]
fn corner_ao_levels_on_a_step() {
    // Flat floor of height 2 with one column (5, 5) of height 3 next to it.
    let mut h = vec![2u32; 1024];
    h[5 * 32 + 5] = 3;
    let hm = Heightmap::from_heights(1, h).unwrap();
    let v = fill_chunk(&hm, 0, 0);
    // Padded coords are global + 1, so the raised column is padded (6, 1..=3, 6).
    // Top face of its top voxel: air is (6, 4, 6), edges u = +x, v = +z.
    let levels = corner_ao_levels(&v, (6, 4, 6), (1, 0, 0), (0, 0, 1));
    assert_eq!(levels, [3, 3, 3, 3]);
    // Top face of the floor voxel at padded (6, 2, 7), just +z of the raised column.
    let levels = corner_ao_levels(&v, (6, 3, 7), (1, 0, 0), (0, 0, 1));
    // The two corners on the -z side have the raised voxel (6, 3, 6) as an edge neighbour.
    assert_eq!(levels, [2, 2, 3, 3]);
}

#[test]
fn terrain_counts_default_and_sanitized() {
    let d = TerrainCounts::default();
    assert_eq!((d.seed, d.octaves, d.max_height, d.grid_size, d.fox_count, d.tree_count), (42, 6, 24, 4, 5, 60));
    let s = d.sanitized();
    assert_eq!((s.seed, s.octaves, s.max_height, s.grid_size, s.fox_count, s.tree_count), (42, 6, 24, 4, 5, 60));
    let wild = TerrainCounts { seed: 7, octaves: 0, max_height: 1000, grid_size: 0, fox_count: 9999, tree_count: 9999 };
    let s = wild.sanitized();
    assert_eq!((s.seed, s.octaves, s.max_height, s.grid_size, s.fox_count, s.tree_count), (7, 1, CHUNK, 1, MAX_FOXES, MAX_TREES));
    let low = TerrainCounts { seed: 7, octaves: 99, max_height: 0, grid_size: 99, fox_count: 0, tree_count: 0 };
    let s = low.sanitized();
    assert_eq!((s.octaves, s.max_height, s.grid_size), (32, MIN_TERRAIN_HEIGHT + 1, MAX_GRID));
    let again = s.sanitized();
    assert_eq!((again.octaves, again.max_height, again.grid_size), (32, MIN_TERRAIN_HEIGHT + 1, MAX_GRID));
}

#[test]
fn fill_columns_fills_each_column_to_its_height() {
    let mut cols = vec![0u32; PADDED_COLUMNS];
    cols[3 + 34 * 5] = 4;
    cols[33 + 34 * 33] = CHUNK;
    let v = fill_columns(&cols);
    assert_eq!(v.len(), PADDED_VOLUME);
    assert!(!v[idx(3, 0, 5)]);
    assert!(v[idx(3, 1, 5)]);
    assert!(v[idx(3, 4, 5)]);
    assert!(!v[idx(3, 5, 5)]);
    assert!(v[idx(33, CHUNK, 33)]);
    assert!(!v[idx(33, CHUNK + 1, 33)]);
    assert_eq!(v.iter().filter(|b| **b).count(), 4 + CHUNK as usize);
}
