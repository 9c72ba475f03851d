use voxel_scene::voxel::{ao_level, layer_for_height, quad_indices, VoxelSettings, NUM_TEXTURE_LAYERS};

#[test]
fn voxel_settings_new_sets_flag() {
    assert_eq!(VoxelSettings::new(true).ao_enabled, 1);
    assert_eq!(VoxelSettings::new(false).ao_enabled, 0);
}

#[test]
fn voxel_settings_toggle_flips_and_restores() {
    let mut s = VoxelSettings::new(true);
    s.toggle();
    assert_eq!(s.ao_enabled, 0);
    s.toggle();
    assert_eq!(s.ao_enabled, 1);
    let mut off = VoxelSettings::new(false);
    off.toggle();
    assert_eq!(off.ao_enabled, VoxelSettings::new(true).ao_enabled);
}

#[test]
fn ao_level_counts_open_neighbours() {
    assert_eq!(ao_level(false, false, false), 3);
    assert_eq!(ao_level(false, false, true), 2);
    assert_eq!(ao_level(true, false, false), 2);
    assert_eq!(ao_level(false, true, true), 1);
    assert_eq!(ao_level(true, false, true), 1);
    assert_eq!(ao_level(true, true, false), 0);
    assert_eq!(ao_level(true, true, true), 0);
}

#[test]
fn ao_level_is_symmetric_and_monotone() {
    for &a in &[false, true] {
        for &b in &[false, true] {
            for &c in &[false, true] {
                assert_eq!(ao_level(a, b, c), ao_level(b, a, c));
                assert!(ao_level(true, b, c) <= ao_level(a, b, c));
                assert!(ao_level(a, b, true) <= ao_level(a, b, c));
                assert!(ao_level(a, b, c) <= 3);
            }
        }
    }
}

#[test]
fn quad_indices_all_patterns() {
    assert_eq!(quad_indices(4, true, false), [4, 5, 6, 5, 7, 6]);
    assert_eq!(quad_indices(4, true, true), [4, 5, 7, 4, 7, 6]);
    assert_eq!(quad_indices(4, false, false), [4, 6, 5, 5, 6, 7]);
    assert_eq!(quad_indices(4, false, true), [4, 7, 5, 4, 6, 7]);
}

#[test]
fn quad_indices_windings_are_mirrored() {
    for &flip in &[false, true] {
        let a = quad_indices(100, true, flip);
        let b = quad_indices(100, false, flip);
        for t in 0..2 {
            assert_eq!(a[3 * t], b[3 * t]);
            assert_eq!(a[3 * t + 1], b[3 * t + 2]);
            assert_eq!(a[3 * t + 2], b[3 * t + 1]);
        }
        for k in 100..104 {
            assert!(a.contains(&k));
        }
    }
}

#[test]
fn quad_indices_at_the_top_of_the_range() {
    let m = u32::MAX - 3;
    assert_eq!(quad_indices(m, true, false), [m, m + 1, m + 2, m + 1, m + 3, m + 2]);
}

#[test]
fn layer_for_height_bands() {
    assert_eq!(layer_for_height(0), 2);
    assert_eq!(layer_for_height(5), 2);
    assert_eq!(layer_for_height(6), 0);
    assert_eq!(layer_for_height(11), 0);
    assert_eq!(layer_for_height(12), 1);
    assert_eq!(layer_for_height(17), 1);
    assert_eq!(layer_for_height(18), 3);
    assert_eq!(layer_for_height(24), 3);
    assert_eq!(layer_for_height(u32::MAX), 3);
}

#[test]
fn layer_for_height_strata_climb() {
    let rank = |l: u32| match l {
        2 => 0,
        0 => 1,
        1 => 2,
        _ => 3,
    };
    for y in 0..40u32 {
        assert!(layer_for_height(y) < NUM_TEXTURE_LAYERS);
        assert!(rank(layer_for_height(y)) <= rank(layer_for_height(y + 1)));
    }
}
