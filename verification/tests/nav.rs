use voxel_scene::scene::nav::{waypoints, NavMesh};
use voxel_scene::scene::terrain::{Heightmap, CHUNK};

fn map(grid: u32, f: impl Fn(usize, usize) -> u32) -> Heightmap {
    let e = (grid * CHUNK) as usize;
    let mut h = Vec::with_capacity(e * e);
    for z in 0..e {
        for x in 0..e {
            h.push(f(x, z));
        }
    }
    Heightmap::from_heights(grid, h).unwrap()
}

#[test]
fn flat_world_is_fully_walkable() {
    let hm = map(1, |_, _| 4);
    let nav = NavMesh::build(&hm);
    assert_eq!(nav.cells().len(), 32 * 32);
    assert_eq!(nav.cells()[0], (0, 0));
    assert_eq!(nav.cells()[1], (1, 0));
    assert_eq!(nav.cells()[32], (0, 1));
    assert_eq!(nav.links().len(), 2 * 32 * 31);
}

#[test]
fn isolated_pillar_is_left_out() {
    let hm = map(1, |x, z| if (x, z) == (10, 12) { 9 } else { 3 });
    let nav = NavMesh::build(&hm);
    assert_eq!(nav.cells().len(), 32 * 32 - 1);
    assert!(!nav.cells().contains(&(10, 12)));
    assert!(nav.cells().contains(&(11, 12)));
    assert!(!nav.links().contains(&((10, 12), (11, 12))));
    assert!(!nav.links().contains(&((9, 12), (10, 12))));
    assert!(nav.links().contains(&((11, 12), (12, 12))));
}

#[test]
fn one_voxel_steps_are_linked() {
    let hm = map(1, |x, _| if x >= 16 { 4 } else { 3 });
    let nav = NavMesh::build(&hm);
    assert_eq!(nav.cells().len(), 32 * 32);
    assert!(nav.links().contains(&((15, 0), (16, 0))));
}

#[test]
fn find_path_on_flat_ground_is_shortest() {
    let hm = map(1, |_, _| 4);
    let nav = NavMesh::build(&hm);
    let p = nav.find_path(&hm, (0, 0), (3, 2)).unwrap();
    assert_eq!(p.len(), 6);
    assert_eq!(p[0], (0, 0));
    assert_eq!(p[5], (3, 2));
    for w in p.windows(2) {
        let d = w[0].0.abs_diff(w[1].0) + w[0].1.abs_diff(w[1].1);
        assert_eq!(d, 1);
    }
}

#[test]
fn find_path_to_self_is_the_start_cell() {
    let hm = map(1, |_, _| 4);
    let nav = NavMesh::build(&hm);
    assert_eq!(nav.find_path(&hm, (7, 7), (7, 7)), Some(vec![(7, 7)]));
}

#[test]
fn find_path_goes_around_a_cliff() {
    // A wall three voxels tall along x = 10 for z < 20.
    let hm = map(1, |x, z| if x == 10 && z < 20 { 6 } else { 3 });
    let nav = NavMesh::build(&hm);
    let p = nav.find_path(&hm, (9, 0), (11, 0)).unwrap();
    assert_eq!(p.len(), 2 + 2 * 20 + 1);
    assert!(!p.iter().any(|c| c.0 == 10 && c.1 < 20));
    let back = nav.find_path(&hm, (11, 0), (9, 0)).unwrap();
    assert_eq!(back.len(), p.len());
}

#[test]
fn find_path_fails_across_a_full_cliff() {
    let hm = map(1, |x, _| if x >= 16 { 8 } else { 3 });
    let nav = NavMesh::build(&hm);
    assert_eq!(nav.find_path(&hm, (0, 0), (31, 31)), None);
    assert_eq!(nav.find_path(&hm, (31, 31), (0, 0)), None);
    assert!(nav.find_path(&hm, (0, 0), (15, 31)).is_some());
}

#[test]
fn find_path_to_an_isolated_cell_fails() {
    let hm = map(1, |x, z| if (x, z) == (10, 12) { 9 } else { 3 });
    let nav = NavMesh::build(&hm);
    assert_eq!(nav.find_path(&hm, (0, 0), (10, 12)), None);
    assert_eq!(nav.find_path(&hm, (10, 12), (0, 0)), None);
    assert_eq!(nav.find_path(&hm, (500, 500), (0, 0)), None);
}

#[test]
fn waypoints_reverse_and_drop_the_start() {
    assert_eq!(waypoints(vec![(0, 0), (1, 0), (2, 0)]), vec![(2, 0), (1, 0)]);
    assert_eq!(waypoints(vec![(4, 4)]), Vec::<(usize, usize)>::new());
    assert_eq!(waypoints(Vec::new()), Vec::<(usize, usize)>::new());
}

#[test]
fn find_path_accepts_any_start_and_goal() {
    let hm = map(1, |_, _| 4);
    let nav = NavMesh::build(&hm);
    let far = (usize::MAX, usize::MAX);
    assert_eq!(nav.find_path(&hm, far, far), Some(vec![far]));
    assert_eq!(nav.find_path(&hm, (31, 0), (usize::MAX - 512, 0)), None);
    assert_eq!(nav.find_path(&hm, far, (0, 0)), None);
    assert_eq!(nav.find_path(&hm, (0, 0), (32, 0)), None);
}

#[test]
fn links_come_in_scan_order() {
    let hm = map(1, |_, _| 4);
    let nav = NavMesh::build(&hm);
    let l = nav.links();
    assert_eq!(l[0], ((0, 0), (1, 0)));
    assert_eq!(l[1], ((0, 0), (0, 1)));
    assert_eq!(l[2], ((1, 0), (2, 0)));
    // The last cell of the first row has only its +z link.
    assert_eq!(l[2 * 31], ((31, 0), (31, 1)));
    assert_eq!(l[2 * 31 + 1], ((0, 1), (1, 1)));
    // The last row has only +x links.
    assert_eq!(*l.last().unwrap(), ((30, 31), (31, 31)));
}
