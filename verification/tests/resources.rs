use voxel_scene::ecs::resources::{Input, KeyCode, VoxelSettingsRes};
use voxel_scene::scene::terrain::VoxelSettings;

fn flags(i: &Input) -> [bool; 10] {
    [
        i.forward, i.backward, i.left, i.right, i.up, i.down, i.look_left, i.look_right, i.look_up,
        i.look_down,
    ]
}

#[test]
fn input_starts_with_no_keys_held() {
    let i = Input::default();
    assert_eq!(flags(&i), [false; 10]);
}

#[test]
fn input_set_maps_movement_and_look() {
    let mut i = Input::default();
    assert!(i.set(KeyCode::KeyW, true));
    assert!(i.forward);
    assert!(i.set(KeyCode::KeyS, true));
    assert!(i.backward);
    assert!(i.set(KeyCode::KeyA, true));
    assert!(i.left);
    assert!(i.set(KeyCode::KeyD, true));
    assert!(i.right);
    assert!(i.set(KeyCode::Space, true));
    assert!(i.up);
    assert!(i.set(KeyCode::ShiftLeft, true));
    assert!(i.down);
    assert!(i.set(KeyCode::ArrowLeft, true));
    assert!(i.look_left);
    assert!(i.set(KeyCode::ArrowRight, true));
    assert!(i.look_right);
    assert!(i.set(KeyCode::ArrowUp, true));
    assert!(i.look_up);
    assert!(i.set(KeyCode::ArrowDown, true));
    assert!(i.look_down);
    assert!(i.set(KeyCode::ShiftRight, false));
    assert!(!i.down);
}

#[test]
fn input_set_ignores_unmapped_keys() {
    let mut i = Input::default();
    i.set(KeyCode::KeyW, true);
    let before = flags(&i);
    assert!(!i.set(KeyCode::Other, true));
    assert_eq!(flags(&i), before);
}

#[test]
fn input_press_then_release_restores() {
    let mut i = Input::default();
    i.set(KeyCode::KeyA, true);
    i.set(KeyCode::ArrowUp, true);
    i.set(KeyCode::ArrowUp, false);
    let mut expected = Input::default();
    expected.set(KeyCode::KeyA, true);
    assert_eq!(flags(&i), flags(&expected));
}

#[test]
fn voxel_settings_resource_wraps_settings() {
    let mut r = VoxelSettingsRes(VoxelSettings::new(true));
    r.0.toggle();
    assert_eq!(r.0.ao_enabled, 0);
}
