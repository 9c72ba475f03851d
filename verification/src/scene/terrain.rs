//! The terrain height map and the padded voxel volume of each chunk.
//!
//! The world is `grid`×`grid` chunks of 32³ voxels. One global height map gives
//! the solid height of every column; each chunk fills a 34³ volume (a one-voxel
//! border on every side) from it, the border mirroring the neighbouring chunk's
//! edge columns so that meshing culls the faces at chunk seams.

use block_mesh::ndshape::{ConstShape, ConstShape3u32};
use vstd::prelude::*;

use crate::voxel::{spec_ao_level, spec_quad_indices};

verus! {

/// Number of texture layers in the array texture.
pub const NUM_TEXTURE_LAYERS: u32 = 4;

/// Edge length of a chunk in voxels.
pub const CHUNK: u32 = 32;

/// Edge length of a chunk's padded volume (one border voxel on each side).
pub const PADDED: u32 = 34;

/// Number of voxels in a chunk's padded volume.
pub const PADDED_VOLUME: usize = 39304;

/// Shortest possible column, so valleys keep a solid floor instead of holes.
pub const MIN_TERRAIN_HEIGHT: u32 = 2;

/// Largest world (chunks per side) the generator allows.
pub const MAX_GRID: u32 = 8;

/// Most foxes the generator allows.
pub const MAX_FOXES: u32 = 64;

/// Most trees the generator allows.
pub const MAX_TREES: u32 = 400;

// ---------------------------------------------------------------------------
// Generator parameters
// ---------------------------------------------------------------------------

/// The integer terrain-generation parameters: world seed, noise octave
/// count, tallest column, world size and how many foxes and trees to place.
#[derive(Debug, Clone, Copy)]
pub struct TerrainCounts {
    pub seed: u32,
    pub octaves: usize,
    /// Tallest possible column; clamped to `(MIN_TERRAIN_HEIGHT, CHUNK]`.
    pub max_height: u32,
    /// Chunks per side; clamped to `[1, MAX_GRID]`.
    pub grid_size: u32,
    /// How many foxes to scatter across the surface; clamped to `[0, MAX_FOXES]`.
    pub fox_count: u32,
    /// Approximate number of trees; clamped to `[0, MAX_TREES]`.
    pub tree_count: u32,
}

/// `v` clamped into `[lo, hi]`.
pub open spec fn clamp_int(v: int, lo: int, hi: int) -> int {
    if v < lo {
        lo
    } else if v > hi {
        hi
    } else {
        v
    }
}

/// Every count lies in its allowed range.
pub open spec fn counts_in_range(c: TerrainCounts) -> bool {
    &&& 1 <= c.octaves <= 32
    &&& MIN_TERRAIN_HEIGHT < c.max_height <= CHUNK
    &&& 1 <= c.grid_size <= MAX_GRID
    &&& c.fox_count <= MAX_FOXES
    &&& c.tree_count <= MAX_TREES
}

/// The counts clamped into their allowed ranges.
pub open spec fn spec_sanitized(c: TerrainCounts) -> TerrainCounts {
    TerrainCounts {
        seed: c.seed,
        octaves: clamp_int(c.octaves as int, 1, 32) as usize,
        max_height: clamp_int(c.max_height as int, MIN_TERRAIN_HEIGHT + 1, CHUNK as int) as u32,
        grid_size: clamp_int(c.grid_size as int, 1, MAX_GRID as int) as u32,
        fox_count: clamp_int(c.fox_count as int, 0, MAX_FOXES as int) as u32,
        tree_count: clamp_int(c.tree_count as int, 0, MAX_TREES as int) as u32,
    }
}

impl TerrainCounts {
    /// Clamp every count to a valid range so a stray slider value can't
    /// produce columns that overflow a chunk or a zero-size world.
    pub fn sanitized(&self) -> (r: Self)
        ensures
            r == spec_sanitized(*self),
    {
        TerrainCounts {
            seed: self.seed,
            octaves: if self.octaves < 1 { 1 } else if self.octaves > 32 { 32 } else { self.octaves },
            max_height: if self.max_height < MIN_TERRAIN_HEIGHT + 1 {
                MIN_TERRAIN_HEIGHT + 1
            } else if self.max_height > CHUNK {
                CHUNK
            } else {
                self.max_height
            },
            grid_size: if self.grid_size < 1 { 1 } else if self.grid_size > MAX_GRID { MAX_GRID } else { self.grid_size },
            fox_count: if self.fox_count > MAX_FOXES { MAX_FOXES } else { self.fox_count },
            tree_count: if self.tree_count > MAX_TREES { MAX_TREES } else { self.tree_count },
        }
    }
}

impl Default for TerrainCounts {
    /// The default world: seed 42, 6 octaves, columns up to 24
    /// voxels, 4×4 chunks, 5 foxes and about 60 trees.
    fn default() -> (r: Self)
        ensures
            r.seed == 42,
            r.octaves == 6,
            r.max_height == 24,
            r.grid_size == 4,
            r.fox_count == 5,
            r.tree_count == 60,
    {
        TerrainCounts { seed: 42, octaves: 6, max_height: 24, grid_size: 4, fox_count: 5, tree_count: 60 }
    }
}

/// Sanitizing yields counts in range, and leaves counts already in range
/// (so also already-sanitized counts) unchanged.
pub proof fn lemma_sanitized_in_range(c: TerrainCounts)
    ensures
        counts_in_range(spec_sanitized(c)),
        counts_in_range(c) ==> spec_sanitized(c) == c,
        spec_sanitized(spec_sanitized(c)) == spec_sanitized(c),
{
}

// ---------------------------------------------------------------------------
// Render settings, ambient occlusion, quad triangulation
// ---------------------------------------------------------------------------

/// Runtime render settings for the voxel pass (a 16-byte uniform).
#[derive(Debug, Clone, Copy)]
pub struct VoxelSettings {
    /// 1 = apply baked ambient occlusion, 0 = ignore it (fully lit).
    pub ao_enabled: u32,
    _pad0: u32,
    _pad1: u32,
    _pad2: u32,
}

impl View for VoxelSettings {
    /// The AO flag, and the three padding words.
    type V = (u32, (u32, u32, u32));

    closed spec fn view(&self) -> (u32, (u32, u32, u32)) {
        (self.ao_enabled, (self._pad0, self._pad1, self._pad2))
    }
}

impl VoxelSettings {
    pub fn new(ao_enabled: bool) -> (s: Self)
        ensures
            s@ == (if ao_enabled { 1u32 } else { 0u32 }, (0u32, 0u32, 0u32)),
    {
        VoxelSettings { ao_enabled: if ao_enabled { 1 } else { 0 }, _pad0: 0, _pad1: 0, _pad2: 0 }
    }

    /// Flip AO on/off.
    pub fn toggle(&mut self)
        ensures
            final(self)@ == (old(self)@.0 ^ 1u32, old(self)@.1),
    {
        self.ao_enabled = self.ao_enabled ^ 1;
    }
}

/// Given the two edge neighbours and the corner neighbour on the air side of a
/// face, return the occlusion level 0..3.
pub fn ao_level(side1: bool, side2: bool, corner: bool) -> (r: usize)
    ensures
        r == spec_ao_level(side1, side2, corner),
{
    if side1 && side2 {
        0
    } else {
        let a: usize = if side1 { 1 } else { 0 };
        let b: usize = if side2 { 1 } else { 0 };
        let c: usize = if corner { 1 } else { 0 };
        3 - (a + b + c)
    }
}

/// Two triangles for a quad, choosing the diagonal via `flip` and preserving
/// the face winding via `ccw`.
pub fn quad_indices(start: u32, ccw: bool, flip: bool) -> (r: [u32; 6])
    requires
        start + 3 <= u32::MAX,
    ensures
        r@.len() == 6,
        forall|i: int| 0 <= i < 6 ==> r@[i] as int == #[trigger] spec_quad_indices(start, ccw, flip)[i],
{
    let r: [u32; 6] = if ccw && !flip {
        [start, start + 1, start + 2, start + 1, start + 3, start + 2]
    } else if ccw && flip {
        [start, start + 1, start + 3, start, start + 3, start + 2]
    } else if !ccw && !flip {
        [start, start + 2, start + 1, start + 1, start + 2, start + 3]
    } else {
        [start, start + 3, start + 1, start, start + 2, start + 3]
    };
    r
}

// ---------------------------------------------------------------------------
// Per-voxel hash
// ---------------------------------------------------------------------------

/// One mixing round of the per-voxel hash.
pub open spec fn hash_mix(h: u64, v: u64) -> u64 {
    let h1 = h ^ v.wrapping_mul(0xD1B54A32D192ED03u64);
    let h2 = h1.wrapping_mul(0xCA4BCAA75EC3F625u64);
    h2 ^ (h2 >> 29u64)
}

/// The full 64-bit per-voxel hash of global coords `(gx, gy, gz)` and `seed`.
pub open spec fn spec_hash64(gx: i64, gy: i64, gz: i64, seed: u32) -> u64 {
    let h0 = (seed as u64) ^ 0x9E3779B97F4A7C15u64;
    hash_mix(hash_mix(hash_mix(h0, gx as u64), gy as u64), gz as u64)
}

fn mix(h: u64, v: u64) -> (r: u64)
    ensures
        r == hash_mix(h, v),
{
    let h1 = h ^ v.wrapping_mul(0xD1B54A32D192ED03u64);
    let h2 = h1.wrapping_mul(0xCA4BCAA75EC3F625u64);
    h2 ^ (h2 >> 29u64)
}

/// Deterministic per-voxel value in `[0, 2^24)` from its global coords and the
/// world seed: the top 24 bits of the per-voxel hash. Divided by `2^24` it is
/// the voxel's dither value in `[0, 1)`.
pub fn hash24(gx: i64, gy: i64, gz: i64, seed: u32) -> (r: u32)
    ensures
        r as u64 == spec_hash64(gx, gy, gz, seed) >> 40u64,
        r < 0x1000000,
{
    let mut h: u64 = (seed as u64) ^ 0x9E3779B97F4A7C15u64;
    h = mix(h, gx as u64);
    h = mix(h, gy as u64);
    h = mix(h, gz as u64);
    let top: u64 = h >> 40u64;
    assert(top < 0x1000000) by (bit_vector)
        requires
            top == h >> 40u64,
    ;
    top as u32
}

// ---------------------------------------------------------------------------
// Height map
// ---------------------------------------------------------------------------

/// Columns per side of a `grid`×`grid` world.
pub open spec fn spec_extent(grid: u32) -> int {
    grid * CHUNK
}

/// A grid size and a row-major height list form a valid height map: the
/// grid has 1 to `MAX_GRID` chunks per side, there is one height per column,
/// and every column is at least `MIN_TERRAIN_HEIGHT` and fits in a chunk.
pub open spec fn valid_height_field(grid: u32, heights: Seq<u32>) -> bool {
    &&& 1 <= grid <= MAX_GRID
    &&& heights.len() == spec_extent(grid) * spec_extent(grid)
    &&& forall|i: int|
        0 <= i < heights.len() ==> MIN_TERRAIN_HEIGHT <= #[trigger] heights[i] <= CHUNK
}

/// Whether global column `(gx, gz)` lies inside a `grid`×`grid` world.
pub open spec fn in_grid(grid: u32, gx: int, gz: int) -> bool {
    0 <= gx < spec_extent(grid) && 0 <= gz < spec_extent(grid)
}

/// Solid-voxel height of column `(gx, gz)`: the stored height inside the
/// grid, `MIN_TERRAIN_HEIGHT` outside it.
pub open spec fn column_height(grid: u32, heights: Seq<u32>, gx: int, gz: int) -> u32 {
    if in_grid(grid, gx, gz) {
        heights[gz * spec_extent(grid) + gx]
    } else {
        MIN_TERRAIN_HEIGHT
    }
}

/// Precomputed terrain: the solid-voxel height of every column in a
/// `grid`×`grid`-chunk world, row-major (`heights[gz * extent + gx]`).
pub struct Heightmap {
    grid: u32,
    extent: u32,
    heights: Vec<u32>,
}

impl View for Heightmap {
    /// Chunks per side, and the row-major column heights.
    type V = (u32, Seq<u32>);

    closed spec fn view(&self) -> (u32, Seq<u32>) {
        (self.grid, self.heights@)
    }
}

/// Why a list of heights does not form a height map.
#[derive(Debug, Clone, Copy, PartialEq, Eq, Structural)]
pub enum HeightmapError {
    /// The grid is not between 1 and `MAX_GRID` chunks per side.
    GridSize,
    /// The list does not hold exactly one height per column.
    Length,
    /// Some column is below `MIN_TERRAIN_HEIGHT` or taller than a chunk.
    HeightOutOfRange,
}

proof fn lemma_row_major_index(e: int, gx: int, gz: int)
    requires
        0 <= gx < e,
        0 <= gz < e,
        e <= spec_extent(MAX_GRID),
    ensures
        0 <= gz * e + gx < e * e,
        e * e <= spec_extent(MAX_GRID) * spec_extent(MAX_GRID),
{
    assert(e * e <= 256 * 256) by (nonlinear_arith)
        requires
            0 <= e <= 256,
    ;
    assert(gz * e <= (e - 1) * e) by (nonlinear_arith)
        requires
            0 <= gz <= e - 1,
            0 <= e,
    ;
    assert((e - 1) * e + e == e * e) by (nonlinear_arith);
}

impl Heightmap {
    /// Internal consistency: the stored extent matches the grid and the
    /// heights form a valid height field.
    pub closed spec fn wf(&self) -> bool {
        &&& self.extent == spec_extent(self.grid)
        &&& valid_height_field(self.grid, self.heights@)
    }

    /// Solid-voxel height of column `(gx, gz)` of this map.
    pub open spec fn spec_height(&self, gx: int, gz: int) -> u32 {
        column_height(self@.0, self@.1, gx, gz)
    }

    /// Build a height map from the solid height of every column of a
    /// `grid`×`grid`-chunk world, row-major.
    pub fn from_heights(grid: u32, heights: Vec<u32>) -> (r: Result<Heightmap, HeightmapError>)
        ensures
            !(1 <= grid <= MAX_GRID) ==> r == Err::<Heightmap, HeightmapError>(HeightmapError::GridSize),
            (1 <= grid <= MAX_GRID && heights@.len() != spec_extent(grid) * spec_extent(grid))
                ==> r == Err::<Heightmap, HeightmapError>(HeightmapError::Length),
            (1 <= grid <= MAX_GRID && heights@.len() == spec_extent(grid) * spec_extent(grid)
                && !valid_height_field(grid, heights@))
                ==> r == Err::<Heightmap, HeightmapError>(HeightmapError::HeightOutOfRange),
            valid_height_field(grid, heights@) ==> (r matches Ok(hm) && hm.wf() && hm@ == (grid, heights@)),
    {
        if grid < 1 || grid > MAX_GRID {
            return Err(HeightmapError::GridSize);
        }
        let extent: u32 = grid * CHUNK;
        assert(extent * extent <= 256 * 256) by (nonlinear_arith)
            requires
                0 <= extent <= 256,
        ;
        let count: usize = (extent as usize) * (extent as usize);
        if heights.len() != count {
            return Err(HeightmapError::Length);
        }
        let mut i: usize = 0;
        while i < heights.len()
            invariant
                1 <= grid <= MAX_GRID,
                extent == spec_extent(grid),
                heights@.len() == spec_extent(grid) * spec_extent(grid),
                0 <= i <= heights@.len(),
                forall|j: int| 0 <= j < i ==> MIN_TERRAIN_HEIGHT <= #[trigger] heights@[j] <= CHUNK,
            decreases heights@.len() - i,
        {
            let h = heights[i];
            if h < MIN_TERRAIN_HEIGHT || h > CHUNK {
                return Err(HeightmapError::HeightOutOfRange);
            }
            i = i + 1;
        }
        Ok(Heightmap { grid, extent, heights })
    }

    /// Chunks per side.
    pub fn grid(&self) -> (r: u32)
        requires
            self.wf(),
        ensures
            r == self@.0,
            1 <= r <= MAX_GRID,
    {
        self.grid
    }

    /// Columns per side (`grid * CHUNK`).
    pub fn extent(&self) -> (r: u32)
        requires
            self.wf(),
        ensures
            r == spec_extent(self@.0),
    {
        self.extent
    }

    /// The map is well formed and its heights form a valid height field.
    pub proof fn lemma_valid(&self)
        requires
            self.wf(),
        ensures
            valid_height_field(self@.0, self@.1),
    {
    }

    /// Solid-voxel height of the column at global voxel coords `(gx, gz)`.
    /// Columns outside the grid report `MIN_TERRAIN_HEIGHT`.
    pub fn height(&self, gx: i64, gz: i64) -> (r: u32)
        requires
            self.wf(),
        ensures
            r == self.spec_height(gx as int, gz as int),
            MIN_TERRAIN_HEIGHT <= r <= CHUNK,
    {
        let e: i64 = self.extent as i64;
        if gx < 0 || gz < 0 || gx >= e || gz >= e {
            MIN_TERRAIN_HEIGHT
        } else {
            proof {
                assert(e <= spec_extent(MAX_GRID));
                lemma_row_major_index(e as int, gx as int, gz as int);
                assert(gz * e + gx < 65536);
            }
            let i: i64 = gz * e + gx;
            self.heights[i as usize]
        }
    }

    /// The grid cell nearest to the (possibly outside) column `(gx, gz)`:
    /// each coordinate clamped into `0..extent`.
    pub fn clamp_cell(&self, gx: i64, gz: i64) -> (r: (usize, usize))
        requires
            self.wf(),
        ensures
            r.0 as int == clamp_coord(gx as int, spec_extent(self@.0)),
            r.1 as int == clamp_coord(gz as int, spec_extent(self@.0)),
            in_grid(self@.0, r.0 as int, r.1 as int),
    {
        let max: i64 = self.extent as i64 - 1;
        let x: i64 = if gx < 0 { 0 } else if gx > max { max } else { gx };
        let z: i64 = if gz < 0 { 0 } else if gz > max { max } else { gz };
        (x as usize, z as usize)
    }
}

/// `v` clamped into `0..extent`.
pub open spec fn clamp_coord(v: int, extent: int) -> int {
    if v < 0 {
        0
    } else if v > extent - 1 {
        extent - 1
    } else {
        v
    }
}

/// Every column of a height map is between `MIN_TERRAIN_HEIGHT` and a chunk
/// tall, and columns outside the grid report `MIN_TERRAIN_HEIGHT`.
pub proof fn lemma_column_height_bounds(grid: u32, heights: Seq<u32>, gx: int, gz: int)
    requires
        valid_height_field(grid, heights),
    ensures
        MIN_TERRAIN_HEIGHT <= column_height(grid, heights, gx, gz) <= CHUNK,
        !in_grid(grid, gx, gz) ==> column_height(grid, heights, gx, gz) == MIN_TERRAIN_HEIGHT,
{
    if in_grid(grid, gx, gz) {
        lemma_row_major_index(spec_extent(grid), gx, gz);
    }
}

/// The chunk `(cx, cz)` holding global column `(gx, gz)` of a `grid`×`grid`
/// world, or `None` if the column lies outside the grid.
pub fn chunk_coord_of_cell(gx: i64, gz: i64, grid: u32) -> (r: Option<(u32, u32)>)
    requires
        grid * CHUNK <= u32::MAX,
    ensures
        r is None <==> !in_grid(grid, gx as int, gz as int),
        r matches Some(c) ==> c.0 == (gx as int) / (CHUNK as int) && c.1 == (gz as int) / (CHUNK as int),
{
    let extent: i64 = (grid * CHUNK) as i64;
    if gx < 0 || gz < 0 || gx >= extent || gz >= extent {
        return None;
    }
    Some(((gx / 32) as u32, (gz / 32) as u32))
}

/// The chunk given for a column inside the grid is a chunk of the grid, and
/// the column lies within that chunk's 32 columns on each axis.
pub proof fn lemma_chunk_contains_cell(gx: int, gz: int, grid: u32)
    requires
        in_grid(grid, gx, gz),
    ensures
        0 <= gx / (CHUNK as int) < grid,
        0 <= gz / (CHUNK as int) < grid,
        (gx / (CHUNK as int)) * CHUNK <= gx < (gx / (CHUNK as int)) * CHUNK + CHUNK,
        (gz / (CHUNK as int)) * CHUNK <= gz < (gz / (CHUNK as int)) * CHUNK + CHUNK,
{
    assert(0 <= gx / 32 < grid) by (nonlinear_arith)
        requires
            0 <= gx < grid * 32,
    ;
    assert(0 <= gz / 32 < grid) by (nonlinear_arith)
        requires
            0 <= gz < grid * 32,
    ;
}

// ---------------------------------------------------------------------------
// Chunk volumes
// ---------------------------------------------------------------------------

/// Index of voxel `(x, y, z)` in a padded chunk volume (x fastest, then y).
pub open spec fn spec_linearize(x: int, y: int, z: int) -> int {
    x + 34 * y + 1156 * z
}

/// Index of voxel `(x, y, z)` in the padded chunk volume, as the meshing
/// crate lays it out.
///
/// Calls `ConstShape::linearize` of `block_mesh::ndshape::ConstShape3u32<34, 34, 34>`,
/// which computes `x + 34·y + 34·34·z`; the contract states that formula for
/// coordinates inside the volume.
#[verifier::external_body]
fn linearize(x: u32, y: u32, z: u32) -> (i: u32)
    requires
        x < PADDED,
        y < PADDED,
        z < PADDED,
    ensures
        i as int == spec_linearize(x as int, y as int, z as int),
{
    ConstShape3u32::<34, 34, 34>::linearize([x, y, z])
}

/// Distinct voxels of the padded volume have distinct indices, all inside the
/// volume.
pub proof fn lemma_linearize_injective(x1: int, y1: int, z1: int, x2: int, y2: int, z2: int)
    requires
        0 <= x1 < PADDED,
        0 <= y1 < PADDED,
        0 <= z1 < PADDED,
        0 <= x2 < PADDED,
        0 <= y2 < PADDED,
        0 <= z2 < PADDED,
    ensures
        0 <= spec_linearize(x1, y1, z1) < PADDED_VOLUME,
        spec_linearize(x1, y1, z1) == spec_linearize(x2, y2, z2) ==> (x1 == x2 && y1 == y2 && z1 == z2),
{
    if spec_linearize(x1, y1, z1) == spec_linearize(x2, y2, z2) {
        let dx = x1 - x2;
        let dy = y1 - y2;
        let dz = z1 - z2;
        assert(dx + 34 * dy + 1156 * dz == 0);
        assert(-1155 <= dx + 34 * dy <= 1155);
        if dz > 0 {
            assert(1156 * dz >= 1156);
        } else if dz < 0 {
            assert(1156 * dz <= -1156);
        }
        assert(dz == 0);
        if dy > 0 {
            assert(34 * dy >= 34);
        } else if dy < 0 {
            assert(34 * dy <= -34);
        }
        assert(dy == 0);
    }
}

/// Whether voxel `(x, y, z)` of the padded volume of the chunk whose first
/// interior column is global column `(ox, oz)` is solid: its column
/// (`ox + x - 1`, `oz + z - 1`) lies inside the grid and `1 <= y <= height`.
/// Columns of the border beyond the grid stay empty, as do the bottom and
/// top layers.
pub open spec fn voxel_solid(grid: u32, heights: Seq<u32>, ox: int, oz: int, x: int, y: int, z: int) -> bool {
    let gx = ox + x - 1;
    let gz = oz + z - 1;
    &&& in_grid(grid, gx, gz)
    &&& 1 <= y <= column_height(grid, heights, gx, gz)
}

/// Number of columns of a chunk's padded volume.
pub const PADDED_COLUMNS: usize = 1156;

/// Fill a padded 34³ volume column by column: column `(x, z)` (at
/// `columns[x + 34·z]`) is solid from `y = 1` up to its height; a height of 0
/// leaves the column empty.
pub fn fill_columns(columns: &Vec<u32>) -> (voxels: Vec<bool>)
    requires
        columns@.len() == PADDED_COLUMNS,
        forall|i: int| 0 <= i < PADDED_COLUMNS ==> #[trigger] columns@[i] <= CHUNK,
    ensures
        voxels@.len() == PADDED_VOLUME,
        forall|x: int, y: int, z: int|
            0 <= x < PADDED && 0 <= y < PADDED && 0 <= z < PADDED ==>
                #[trigger] voxels@[spec_linearize(x, y, z)] == (1 <= y <= columns@[x + 34 * z]),
{
    let mut voxels: Vec<bool> = Vec::new();
    let mut i: usize = 0;
    while i < PADDED_VOLUME
        invariant
            voxels@.len() == i,
            i <= PADDED_VOLUME,
            forall|j: int| 0 <= j < i ==> !#[trigger] voxels@[j],
        decreases PADDED_VOLUME - i,
    {
        voxels.push(false);
        i = i + 1;
    }
    let mut z: u32 = 0;
    while z < PADDED
        invariant
            columns@.len() == PADDED_COLUMNS,
            forall|i: int| 0 <= i < PADDED_COLUMNS ==> #[trigger] columns@[i] <= CHUNK,
            z <= PADDED,
            voxels@.len() == PADDED_VOLUME,
            forall|x2: int, y2: int, z2: int|
                0 <= x2 < PADDED && 0 <= y2 < PADDED && 0 <= z2 < PADDED ==>
                    #[trigger] voxels@[spec_linearize(x2, y2, z2)]
                        == (z2 < z && 1 <= y2 <= columns@[x2 + 34 * z2]),
        decreases PADDED - z,
    {
        let mut x: u32 = 0;
        while x < PADDED
            invariant
                columns@.len() == PADDED_COLUMNS,
                forall|i: int| 0 <= i < PADDED_COLUMNS ==> #[trigger] columns@[i] <= CHUNK,
                z < PADDED,
                x <= PADDED,
                voxels@.len() == PADDED_VOLUME,
                forall|x2: int, y2: int, z2: int|
                    0 <= x2 < PADDED && 0 <= y2 < PADDED && 0 <= z2 < PADDED ==>
                        #[trigger] voxels@[spec_linearize(x2, y2, z2)]
                            == ((z2 < z || (z2 == z && x2 < x)) && 1 <= y2 <= columns@[x2 + 34 * z2]),
            decreases PADDED - x,
        {
            let height = columns[(x + 34 * z) as usize];
            let mut y: u32 = 1;
            while y <= height
                invariant
                    columns@.len() == PADDED_COLUMNS,
                    z < PADDED,
                    x < PADDED,
                    height == columns@[x + 34 * z],
                    height <= CHUNK,
                    1 <= y <= height + 1,
                    voxels@.len() == PADDED_VOLUME,
                    forall|x2: int, y2: int, z2: int|
                        0 <= x2 < PADDED && 0 <= y2 < PADDED && 0 <= z2 < PADDED ==>
                            #[trigger] voxels@[spec_linearize(x2, y2, z2)]
                                == (((z2 < z || (z2 == z && x2 < x)) && 1 <= y2 <= columns@[x2 + 34 * z2])
                                    || (z2 == z && x2 == x && 1 <= y2 < y)),
                decreases height + 1 - y,
            {
                let i = linearize(x, y, z);
                let ghost before = voxels@;
                voxels.set(i as usize, true);
                assert forall|x2: int, y2: int, z2: int|
                    0 <= x2 < PADDED && 0 <= y2 < PADDED && 0 <= z2 < PADDED implies
                        #[trigger] voxels@[spec_linearize(x2, y2, z2)]
                            == (((z2 < z || (z2 == z && x2 < x)) && 1 <= y2 <= columns@[x2 + 34 * z2])
                                || (z2 == z && x2 == x && 1 <= y2 < y + 1)) by {
                    lemma_linearize_injective(x2, y2, z2, x as int, y as int, z as int);
                    if spec_linearize(x2, y2, z2) != i as int {
                        assert(voxels@[spec_linearize(x2, y2, z2)] == before[spec_linearize(x2, y2, z2)]);
                    }
                }
                y = y + 1;
            }
            x = x + 1;
        }
        z = z + 1;
    }
    voxels
}

/// Fill the padded 34³ volume of the chunk at `chunk_voxel_offset`
/// (`offset_x`, `offset_z`) from the global height map: every column is solid
/// from `y = 1` up to its height, border columns mirror the neighbouring
/// chunk, and border columns beyond the grid stay empty.
pub fn fill_chunk(hm: &Heightmap, offset_x: u32, offset_z: u32) -> (voxels: Vec<bool>)
    requires
        hm.wf(),
    ensures
        voxels@.len() == PADDED_VOLUME,
        forall|x: int, y: int, z: int|
            0 <= x < PADDED && 0 <= y < PADDED && 0 <= z < PADDED ==>
                #[trigger] voxels@[spec_linearize(x, y, z)]
                    == voxel_solid(hm@.0, hm@.1, offset_x as int, offset_z as int, x, y, z),
{
    let ghost grid = hm@.0;
    let ghost heights = hm@.1;
    let ghost ox = offset_x as int;
    let ghost oz = offset_z as int;
    let extent: i64 = hm.extent() as i64;
    let mut columns: Vec<u32> = Vec::new();
    let mut z: u32 = 0;
    while z < PADDED
        invariant
            hm.wf(),
            grid == hm@.0,
            heights == hm@.1,
            ox == offset_x as int,
            oz == offset_z as int,
            extent == spec_extent(grid),
            z <= PADDED,
            columns@.len() == 34 * z,
            forall|i: int| 0 <= i < columns@.len() ==> #[trigger] columns@[i] <= CHUNK,
            forall|x2: int, z2: int|
                0 <= x2 < PADDED && 0 <= z2 < z ==> #[trigger] columns@[x2 + 34 * z2] == column_fill_height(grid, heights, ox + x2 - 1, oz + z2 - 1),
        decreases PADDED - z,
    {
        let mut x: u32 = 0;
        while x < PADDED
            invariant
                hm.wf(),
                grid == hm@.0,
                heights == hm@.1,
                ox == offset_x as int,
                oz == offset_z as int,
                extent == spec_extent(grid),
                z < PADDED,
                x <= PADDED,
                columns@.len() == 34 * z + x,
                forall|i: int| 0 <= i < columns@.len() ==> #[trigger] columns@[i] <= CHUNK,
                forall|x2: int, z2: int|
                    0 <= x2 < PADDED && 0 <= z2 < PADDED && x2 + 34 * z2 < 34 * z + x
                        ==> #[trigger] columns@[x2 + 34 * z2] == column_fill_height(grid, heights, ox + x2 - 1, oz + z2 - 1),
            decreases PADDED - x,
        {
            // Global voxel coords of this column; `-1` removes the padding offset.
            let gx: i64 = offset_x as i64 + x as i64 - 1;
            let gz: i64 = offset_z as i64 + z as i64 - 1;
            // Border columns beyond the grid have no neighbour chunk: leave
            // them empty so the terrain's outer walls are meshed.
            let h: u32 = if gx < 0 || gz < 0 || gx >= extent || gz >= extent { 0 } else { hm.height(gx, gz) };
            columns.push(h);
            x = x + 1;
        }
        z = z + 1;
    }
    let voxels = fill_columns(&columns);
    assert forall|x: int, y: int, z: int|
        0 <= x < PADDED && 0 <= y < PADDED && 0 <= z < PADDED implies
            #[trigger] voxels@[spec_linearize(x, y, z)] == voxel_solid(grid, heights, ox, oz, x, y, z) by {
        assert(columns@[x + 34 * z] == column_fill_height(grid, heights, ox + x - 1, oz + z - 1));
    }
    voxels
}

/// Fill height of global column `(gx, gz)` in a chunk volume: its height
/// inside the grid, 0 (empty) outside it.
pub open spec fn column_fill_height(grid: u32, heights: Seq<u32>, gx: int, gz: int) -> int {
    if in_grid(grid, gx, gz) {
        column_height(grid, heights, gx, gz) as int
    } else {
        0
    }
}

/// Whether the voxel at signed coords `(x, y, z)` of a padded chunk volume is
/// solid; samples outside the volume count as empty.
pub fn is_solid(voxels: &Vec<bool>, x: i32, y: i32, z: i32) -> (r: bool)
    requires
        voxels@.len() == PADDED_VOLUME,
    ensures
        r == (0 <= x < PADDED && 0 <= y < PADDED && 0 <= z < PADDED
            && voxels@[spec_linearize(x as int, y as int, z as int)]),
{
    let max: i32 = (PADDED - 1) as i32;
    if x < 0 || y < 0 || z < 0 || x > max || y > max || z > max {
        return false;
    }
    proof {
        lemma_linearize_injective(x as int, y as int, z as int, 0, 0, 0);
    }
    let i = linearize(x as u32, y as u32, z as u32);
    voxels[i as usize]
}

/// Whether the voxel at signed coords `c` of a padded volume is solid
/// (coords outside the volume count as empty).
pub open spec fn solid_at(voxels: Seq<bool>, c: (int, int, int)) -> bool {
    0 <= c.0 < PADDED && 0 <= c.1 < PADDED && 0 <= c.2 < PADDED && voxels[spec_linearize(c.0, c.1, c.2)]
}

/// `a + b` when `positive`, else `a − b`, componentwise.
pub open spec fn offset_by(a: (int, int, int), b: (i32, i32, i32), positive: bool) -> (int, int, int) {
    if positive {
        (a.0 + b.0, a.1 + b.1, a.2 + b.2)
    } else {
        (a.0 - b.0, a.1 - b.1, a.2 - b.2)
    }
}

/// The `i`-th quad corner's signs (`true` = +) along the face's `u` and `v`
/// edges, in the corner order `(0,0), (1,0), (0,1), (1,1)`.
pub open spec fn corner_signs(i: int) -> (bool, bool) {
    if i == 0 {
        (false, false)
    } else if i == 1 {
        (true, false)
    } else if i == 2 {
        (false, true)
    } else {
        (true, true)
    }
}

/// AO level of quad corner `i`: sample the two edge neighbours and the corner
/// neighbour of the air voxel in front of the face.
pub open spec fn spec_corner_ao(voxels: Seq<bool>, air: (i32, i32, i32), u: (i32, i32, i32), v: (i32, i32, i32), i: int) -> int {
    let (su, sv) = corner_signs(i);
    let a = (air.0 as int, air.1 as int, air.2 as int);
    let s1 = offset_by(a, u, su);
    let s2 = offset_by(a, v, sv);
    let cor = offset_by(s1, v, sv);
    spec_ao_level(solid_at(voxels, s1), solid_at(voxels, s2), solid_at(voxels, cor))
}

/// `a + b` when `positive`, else `a − b`, componentwise.
fn offset3(a: (i32, i32, i32), b: (i32, i32, i32), positive: bool) -> (r: (i32, i32, i32))
    requires
        -0x300000 <= a.0 <= 0x300000 && -0x300000 <= a.1 <= 0x300000 && -0x300000 <= a.2 <= 0x300000,
        small_vec(b),
    ensures
        (r.0 as int, r.1 as int, r.2 as int) == offset_by((a.0 as int, a.1 as int, a.2 as int), b, positive),
{
    if positive {
        (a.0 + b.0, a.1 + b.1, a.2 + b.2)
    } else {
        (a.0 - b.0, a.1 - b.1, a.2 - b.2)
    }
}

/// Small enough that sums of a few of them cannot overflow.
pub open spec fn small_vec(a: (i32, i32, i32)) -> bool {
    -0x100000 <= a.0 <= 0x100000 && -0x100000 <= a.1 <= 0x100000 && -0x100000 <= a.2 <= 0x100000
}

/// Per-corner AO levels of a quad: `air` is the voxel in front of the face
/// (solid voxel + face normal) and `u`, `v` the face's edge vectors. For
/// corner `i` with signs `(su, sv)` the samples are `air + su·u`,
/// `air + sv·v` and `air + su·u + sv·v`.
pub fn corner_ao_levels(voxels: &Vec<bool>, air: (i32, i32, i32), u: (i32, i32, i32), v: (i32, i32, i32)) -> (r: [usize; 4])
    requires
        voxels@.len() == PADDED_VOLUME,
        small_vec(air),
        small_vec(u),
        small_vec(v),
    ensures
        r@.len() == 4,
        forall|i: int| 0 <= i < 4 ==> #[trigger] r@[i] as int == spec_corner_ao(voxels@, air, u, v, i),
{
    let mut ao: [usize; 4] = [0, 0, 0, 0];
    let mut i: usize = 0;
    while i < 4
        invariant
            voxels@.len() == PADDED_VOLUME,
            small_vec(air),
            small_vec(u),
            small_vec(v),
            i <= 4,
            ao@.len() == 4,
            forall|j: int| 0 <= j < i ==> #[trigger] ao@[j] as int == spec_corner_ao(voxels@, air, u, v, j),
        decreases 4 - i,
    {
        let su: bool = i == 1 || i == 3;
        let sv: bool = i >= 2;
        let s1 = offset3(air, u, su);
        let s2 = offset3(air, v, sv);
        let cor = offset3(s1, v, sv);
        let level = ao_level(
            is_solid(voxels, s1.0, s1.1, s1.2),
            is_solid(voxels, s2.0, s2.1, s2.2),
            is_solid(voxels, cor.0, cor.1, cor.2),
        );
        assert(level as int == spec_corner_ao(voxels@, air, u, v, i as int));
        ao[i] = level;
        i = i + 1;
    }
    ao
}

/// Each quad corner's AO level samples, from the air voxel `air` in front of
/// the face, the edge neighbour one step along `u` toward the corner, the edge
/// neighbour one step along `v` toward the corner, and the diagonal neighbour
/// one step along both: corner 0 at `−u−v`, 1 at `+u−v`, 2 at `−u+v`, 3 at
/// `+u+v`.
pub proof fn lemma_corner_ao_samples(voxels: Seq<bool>, air: (i32, i32, i32), u: (i32, i32, i32), v: (i32, i32, i32))
    ensures
        spec_corner_ao(voxels, air, u, v, 0) == spec_ao_level(
            solid_at(voxels, (air.0 - u.0, air.1 - u.1, air.2 - u.2)),
            solid_at(voxels, (air.0 - v.0, air.1 - v.1, air.2 - v.2)),
            solid_at(voxels, (air.0 - u.0 - v.0, air.1 - u.1 - v.1, air.2 - u.2 - v.2)),
        ),
        spec_corner_ao(voxels, air, u, v, 1) == spec_ao_level(
            solid_at(voxels, (air.0 + u.0, air.1 + u.1, air.2 + u.2)),
            solid_at(voxels, (air.0 - v.0, air.1 - v.1, air.2 - v.2)),
            solid_at(voxels, (air.0 + u.0 - v.0, air.1 + u.1 - v.1, air.2 + u.2 - v.2)),
        ),
        spec_corner_ao(voxels, air, u, v, 2) == spec_ao_level(
            solid_at(voxels, (air.0 - u.0, air.1 - u.1, air.2 - u.2)),
            solid_at(voxels, (air.0 + v.0, air.1 + v.1, air.2 + v.2)),
            solid_at(voxels, (air.0 - u.0 + v.0, air.1 - u.1 + v.1, air.2 - u.2 + v.2)),
        ),
        spec_corner_ao(voxels, air, u, v, 3) == spec_ao_level(
            solid_at(voxels, (air.0 + u.0, air.1 + u.1, air.2 + u.2)),
            solid_at(voxels, (air.0 + v.0, air.1 + v.1, air.2 + v.2)),
            solid_at(voxels, (air.0 + u.0 + v.0, air.1 + u.1 + v.1, air.2 + u.2 + v.2)),
        ),
{
}

/// Neighbouring chunks line up seamlessly: the border column of one chunk
/// holds exactly the voxels of the neighbour's edge column, along both axes.
pub proof fn lemma_chunk_seams(grid: u32, heights: Seq<u32>, ox: int, oz: int, y: int, t: int)
    ensures
        voxel_solid(grid, heights, ox, oz, PADDED - 1, y, t)
            == voxel_solid(grid, heights, ox + CHUNK, oz, 1, y, t),
        voxel_solid(grid, heights, ox + CHUNK, oz, 0, y, t)
            == voxel_solid(grid, heights, ox, oz, CHUNK as int, y, t),
        voxel_solid(grid, heights, ox, oz, t, y, PADDED - 1)
            == voxel_solid(grid, heights, ox, oz + CHUNK, t, y, 1),
        voxel_solid(grid, heights, ox, oz + CHUNK, t, y, 0)
            == voxel_solid(grid, heights, ox, oz, t, y, CHUNK as int),
{
}

/// The bottom and top layers of every padded chunk volume stay empty, so the
/// floor and surface faces are always emitted.
pub proof fn lemma_chunk_floor_and_top_empty(grid: u32, heights: Seq<u32>, ox: int, oz: int, x: int, z: int)
    requires
        valid_height_field(grid, heights),
    ensures
        !voxel_solid(grid, heights, ox, oz, x, 0, z),
        !voxel_solid(grid, heights, ox, oz, x, PADDED - 1, z),
{
    lemma_column_height_bounds(grid, heights, ox + x - 1, oz + z - 1);
}

} // verus!
