//! Stand-alone voxel chunk helpers: the ambient-occlusion setting, per-corner
//! occlusion levels, quad triangulation and elevation banding of texture layers.

use vstd::prelude::*;

verus! {

/// Number of texture layers in the array texture.
pub const NUM_TEXTURE_LAYERS: u32 = 4;

/// Tallest possible column of the stand-alone chunk generator.
pub const MAX_TERRAIN_HEIGHT: u32 = 24;

/// Runtime render settings for the voxel pass (a 16-byte uniform).
#[derive(Debug, Clone, Copy)]
pub struct VoxelSettings {
    /// 1 = apply baked ambient occlusion, 0 = ignore it (fully lit).
    pub ao_enabled: u32,
    _pad0: u32,
    _pad1: u32,
    _pad2: u32,
}

impl View for VoxelSettings {
    /// The AO flag, and the three padding words.
    type V = (u32, (u32, u32, u32));

    closed spec fn view(&self) -> (u32, (u32, u32, u32)) {
        (self.ao_enabled, (self._pad0, self._pad1, self._pad2))
    }
}

impl VoxelSettings {
    pub fn new(ao_enabled: bool) -> (s: Self)
        ensures
            s@ == (if ao_enabled { 1u32 } else { 0u32 }, (0u32, 0u32, 0u32)),
    {
        VoxelSettings { ao_enabled: if ao_enabled { 1 } else { 0 }, _pad0: 0, _pad1: 0, _pad2: 0 }
    }

    /// Flip AO on/off.
    pub fn toggle(&mut self)
        ensures
            final(self)@ == (old(self)@.0 ^ 1u32, old(self)@.1),
    {
        self.ao_enabled = self.ao_enabled ^ 1;
    }
}

/// Toggling the AO flag twice restores it.
pub proof fn lemma_toggle_involution(a: u32)
    ensures
        (a ^ 1u32) ^ 1u32 == a,
{
    assert((a ^ 1u32) ^ 1u32 == a) by (bit_vector);
}

/// A freshly made setting, toggled, is the setting made with the opposite flag.
pub proof fn lemma_toggle_new(b: bool)
    ensures
        (if b { 1u32 } else { 0u32 }) ^ 1u32 == (if !b { 1u32 } else { 0u32 }),
{
    assert(1u32 ^ 1u32 == 0u32) by (bit_vector);
    assert(0u32 ^ 1u32 == 1u32) by (bit_vector);
}

/// 1 for a solid neighbour, 0 for an empty one.
pub open spec fn solid_count(b: bool) -> int {
    if b { 1 } else { 0 }
}

/// Classic voxel AO level (0 = deepest corner, 3 = fully open).
pub open spec fn spec_ao_level(side1: bool, side2: bool, corner: bool) -> int {
    if side1 && side2 {
        0
    } else {
        3 - (solid_count(side1) + solid_count(side2) + solid_count(corner))
    }
}

/// Given the two edge neighbours and the corner neighbour on the air side of a
/// face, return the occlusion level 0..3.
pub fn ao_level(side1: bool, side2: bool, corner: bool) -> (r: usize)
    ensures
        r == spec_ao_level(side1, side2, corner),
{
    if side1 && side2 {
        0
    } else {
        let a: usize = if side1 { 1 } else { 0 };
        let b: usize = if side2 { 1 } else { 0 };
        let c: usize = if corner { 1 } else { 0 };
        3 - (a + b + c)
    }
}

/// The AO level is a valid index into the four brightness levels, does not
/// depend on which edge neighbour is which, is fully open exactly when no
/// neighbour is solid, is 0 exactly when both edge neighbours are solid, and
/// making any neighbour solid never brightens the corner.
pub proof fn lemma_ao_level_laws(s1: bool, s2: bool, c: bool)
    ensures
        0 <= spec_ao_level(s1, s2, c) <= 3,
        spec_ao_level(s1, s2, c) == spec_ao_level(s2, s1, c),
        spec_ao_level(s1, s2, c) == 3 <==> (!s1 && !s2 && !c),
        spec_ao_level(s1, s2, c) == 0 <==> (s1 && s2),
        spec_ao_level(true, s2, c) <= spec_ao_level(s1, s2, c),
        spec_ao_level(s1, true, c) <= spec_ao_level(s1, s2, c),
        spec_ao_level(s1, s2, true) <= spec_ao_level(s1, s2, c),
{
}

/// The six indices (two triangles) of the quad whose four vertices start at
/// `start`; `flip` picks the diagonal and `ccw` the winding.
pub open spec fn spec_quad_indices(start: u32, ccw: bool, flip: bool) -> Seq<int> {
    let s = start as int;
    if ccw && !flip {
        seq![s, s + 1, s + 2, s + 1, s + 3, s + 2]
    } else if ccw && flip {
        seq![s, s + 1, s + 3, s, s + 3, s + 2]
    } else if !ccw && !flip {
        seq![s, s + 2, s + 1, s + 1, s + 2, s + 3]
    } else {
        seq![s, s + 3, s + 1, s, s + 2, s + 3]
    }
}

/// Two triangles for a quad, choosing the diagonal via `flip` and preserving
/// the face winding via `ccw`.
pub fn quad_indices(start: u32, ccw: bool, flip: bool) -> (r: [u32; 6])
    requires
        start + 3 <= u32::MAX,
    ensures
        r@.len() == 6,
        forall|i: int| 0 <= i < 6 ==> r@[i] as int == #[trigger] spec_quad_indices(start, ccw, flip)[i],
{
    let r: [u32; 6] = if ccw && !flip {
        [start, start + 1, start + 2, start + 1, start + 3, start + 2]
    } else if ccw && flip {
        [start, start + 1, start + 3, start, start + 3, start + 2]
    } else if !ccw && !flip {
        [start, start + 2, start + 1, start + 1, start + 2, start + 3]
    } else {
        [start, start + 3, start + 1, start, start + 2, start + 3]
    };
    r
}

/// Every index of the quad names one of its four vertices, and each of the
/// four vertices is used.
pub proof fn lemma_quad_indices_cover_corners(start: u32, ccw: bool, flip: bool)
    ensures
        spec_quad_indices(start, ccw, flip).len() == 6,
        forall|i: int|
            0 <= i < 6 ==> start <= #[trigger] spec_quad_indices(start, ccw, flip)[i] <= start + 3,
        forall|k: int|
            0 <= k < 4 ==> #[trigger] spec_quad_indices(start, ccw, flip).contains(start + k),
{
    let q = spec_quad_indices(start, ccw, flip);
    let s = start as int;
    assert forall|k: int| 0 <= k < 4 implies #[trigger] q.contains(s + k) by {
        if ccw && !flip {
            if k == 0 { assert(q[0] == s); } else if k == 1 { assert(q[1] == s + 1); }
            else if k == 2 { assert(q[2] == s + 2); } else { assert(q[4] == s + 3); }
        } else if ccw && flip {
            if k == 0 { assert(q[0] == s); } else if k == 1 { assert(q[1] == s + 1); }
            else if k == 2 { assert(q[5] == s + 2); } else { assert(q[2] == s + 3); }
        } else if !ccw && !flip {
            if k == 0 { assert(q[0] == s); } else if k == 1 { assert(q[2] == s + 1); }
            else if k == 2 { assert(q[1] == s + 2); } else { assert(q[5] == s + 3); }
        } else {
            if k == 0 { assert(q[0] == s); } else if k == 1 { assert(q[2] == s + 1); }
            else if k == 2 { assert(q[4] == s + 2); } else { assert(q[1] == s + 3); }
        }
    }
}

/// For a given diagonal, the two windings list the same triangles with the
/// opposite orientation: each triangle keeps its first vertex and swaps the
/// other two.
pub proof fn lemma_quad_winding_reverses(start: u32, flip: bool)
    ensures
        forall|t: int|
            0 <= t < 2 ==> {
                &&& #[trigger] spec_quad_indices(start, true, flip)[3 * t] == spec_quad_indices(start, false, flip)[3 * t]
                &&& spec_quad_indices(start, true, flip)[3 * t + 1] == spec_quad_indices(start, false, flip)[3 * t + 2]
                &&& spec_quad_indices(start, true, flip)[3 * t + 2] == spec_quad_indices(start, false, flip)[3 * t + 1]
            },
{
    assert forall|t: int| 0 <= t < 2 implies {
        &&& #[trigger] spec_quad_indices(start, true, flip)[3 * t] == spec_quad_indices(start, false, flip)[3 * t]
        &&& spec_quad_indices(start, true, flip)[3 * t + 1] == spec_quad_indices(start, false, flip)[3 * t + 2]
        &&& spec_quad_indices(start, true, flip)[3 * t + 2] == spec_quad_indices(start, false, flip)[3 * t + 1]
    } by {
        if t == 0 {
        } else {
            assert(3 * t == 3);
        }
    }
}

/// Both triangles share the chosen diagonal: vertices 1 and 2 without `flip`,
/// vertices 0 and 3 with it.
pub proof fn lemma_quad_shared_diagonal(start: u32, ccw: bool, flip: bool)
    ensures
        ({
            let q = spec_quad_indices(start, ccw, flip);
            let (a, b) = if flip { (start as int, start + 3) } else { (start + 1, start + 2) };
            &&& q.subrange(0, 3).contains(a) && q.subrange(0, 3).contains(b)
            &&& q.subrange(3, 6).contains(a) && q.subrange(3, 6).contains(b)
        }),
{
    let q = spec_quad_indices(start, ccw, flip);
    let t0 = q.subrange(0, 3);
    let t1 = q.subrange(3, 6);
    assert(t0[0] == q[0] && t0[1] == q[1] && t0[2] == q[2]);
    assert(t1[0] == q[3] && t1[1] == q[4] && t1[2] == q[5]);
}

/// Position of quad corner `k` (0 to 3) along the face's `u` edge, in the
/// corner layout `0 = (0,0), 1 = (1,0), 2 = (0,1), 3 = (1,1)`.
pub open spec fn corner_u(k: int) -> int {
    if k == 1 || k == 3 { 1 } else { 0 }
}

/// Position of quad corner `k` (0 to 3) along the face's `v` edge.
pub open spec fn corner_v(k: int) -> int {
    if k >= 2 { 1 } else { 0 }
}

/// Twice the signed area of the triangle of corners `a`, `b`, `c` in the
/// `(u, v)` plane: positive when they run counter-clockwise.
pub open spec fn corner_orientation(a: int, b: int, c: int) -> int {
    (corner_u(b) - corner_u(a)) * (corner_v(c) - corner_v(a)) - (corner_v(b) - corner_v(a)) * (corner_u(c) - corner_u(a))
}

/// The triangulation is the same pattern for every quad, shifted by `start`,
/// and both of its triangles are wound like the face: counter-clockwise in
/// the `(u, v)` corner layout when `ccw`, clockwise otherwise.
pub proof fn lemma_quad_triangles_follow_face_winding(start: u32, ccw: bool, flip: bool)
    ensures
        forall|i: int| 0 <= i < 6 ==> #[trigger] spec_quad_indices(start, ccw, flip)[i] - start
            == spec_quad_indices(0, ccw, flip)[i],
        ({
            let q = spec_quad_indices(start, ccw, flip);
            let s = start as int;
            let o0 = corner_orientation(q[0] - s, q[1] - s, q[2] - s);
            let o1 = corner_orientation(q[3] - s, q[4] - s, q[5] - s);
            &&& ccw ==> o0 == 1 && o1 == 1
            &&& !ccw ==> o0 == -1 && o1 == -1
        }),
{
    let q = spec_quad_indices(start, ccw, flip);
    let s = start as int;
    assert forall|i: int| 0 <= i < 6 implies #[trigger] spec_quad_indices(start, ccw, flip)[i] - start
        == spec_quad_indices(0, ccw, flip)[i] by {}
    lemma_corner_orientations();
}

/// The orientations of the eight triangles the four triangulations use.
proof fn lemma_corner_orientations()
    ensures
        corner_orientation(0, 1, 2) == 1,
        corner_orientation(1, 3, 2) == 1,
        corner_orientation(0, 1, 3) == 1,
        corner_orientation(0, 3, 2) == 1,
        corner_orientation(0, 2, 1) == -1,
        corner_orientation(1, 2, 3) == -1,
        corner_orientation(0, 3, 1) == -1,
        corner_orientation(0, 2, 3) == -1,
{
    let (u0, u1, u2, u3) = (corner_u(0), corner_u(1), corner_u(2), corner_u(3));
    let (v0, v1, v2, v3) = (corner_v(0), corner_v(1), corner_v(2), corner_v(3));
    assert(u0 == 0 && u1 == 1 && u2 == 0 && u3 == 1);
    assert(v0 == 0 && v1 == 0 && v2 == 1 && v3 == 1);
    assert((u1 - u0) * (v2 - v0) - (v1 - v0) * (u2 - u0) == 1) by (nonlinear_arith)
        requires u0 == 0 && u1 == 1 && u2 == 0 && v0 == 0 && v1 == 0 && v2 == 1;
    assert((u3 - u1) * (v2 - v1) - (v3 - v1) * (u2 - u1) == 1) by (nonlinear_arith)
        requires u1 == 1 && u2 == 0 && u3 == 1 && v1 == 0 && v2 == 1 && v3 == 1;
    assert((u1 - u0) * (v3 - v0) - (v1 - v0) * (u3 - u0) == 1) by (nonlinear_arith)
        requires u0 == 0 && u1 == 1 && u3 == 1 && v0 == 0 && v1 == 0 && v3 == 1;
    assert((u3 - u0) * (v2 - v0) - (v3 - v0) * (u2 - u0) == 1) by (nonlinear_arith)
        requires u0 == 0 && u2 == 0 && u3 == 1 && v0 == 0 && v2 == 1 && v3 == 1;
    assert((u2 - u0) * (v1 - v0) - (v2 - v0) * (u1 - u0) == -1) by (nonlinear_arith)
        requires u0 == 0 && u1 == 1 && u2 == 0 && v0 == 0 && v1 == 0 && v2 == 1;
    assert((u2 - u1) * (v3 - v1) - (v2 - v1) * (u3 - u1) == -1) by (nonlinear_arith)
        requires u1 == 1 && u2 == 0 && u3 == 1 && v1 == 0 && v2 == 1 && v3 == 1;
    assert((u3 - u0) * (v1 - v0) - (v3 - v0) * (u1 - u0) == -1) by (nonlinear_arith)
        requires u0 == 0 && u1 == 1 && u3 == 1 && v0 == 0 && v1 == 0 && v3 == 1;
    assert((u2 - u0) * (v3 - v0) - (v2 - v0) * (u3 - u0) == -1) by (nonlinear_arith)
        requires u0 == 0 && u2 == 0 && u3 == 1 && v0 == 0 && v2 == 1 && v3 == 1;
}

/// Texture layer of a voxel at absolute height `y`, banded by elevation:
/// water (2) below a quarter of the tallest column, then grass (0) below half,
/// dirt (1) below three quarters, stone (3) above.
pub open spec fn spec_layer_for_height(y: u32) -> u32 {
    if 4 * y < MAX_TERRAIN_HEIGHT {
        2
    } else if 2 * y < MAX_TERRAIN_HEIGHT {
        0
    } else if 4 * y < 3 * MAX_TERRAIN_HEIGHT {
        1
    } else {
        3
    }
}

/// Pick a texture-array layer from a voxel's absolute height.
pub fn layer_for_height(y: u32) -> (r: u32)
    ensures
        r == spec_layer_for_height(y),
{
    let y4: u64 = (y as u64) * 4;
    let max: u64 = MAX_TERRAIN_HEIGHT as u64;
    if y4 < max {
        2
    } else if y4 < 2 * max {
        0
    } else if y4 < 3 * max {
        1
    } else {
        3
    }
}

/// Rank of a layer in the water → grass → dirt → stone order.
pub open spec fn band_rank(layer: u32) -> int {
    if layer == 2 { 0 } else if layer == 0 { 1 } else if layer == 1 { 2 } else { 3 }
}

/// Every height gets a valid texture layer, and the strata climb in order:
/// a higher voxel never gets a lower band than a voxel beneath it.
pub proof fn lemma_layer_bands(y1: u32, y2: u32)
    ensures
        spec_layer_for_height(y1) < NUM_TEXTURE_LAYERS,
        y1 <= y2 ==> band_rank(spec_layer_for_height(y1)) <= band_rank(spec_layer_for_height(y2)),
{
}

} // verus!
