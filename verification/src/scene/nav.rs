//! Grid navigation mesh derived from the terrain height map. Each surface
//! column is a cell; two 4-neighbour cells are linked when the height step
//! between them is at most one voxel (cliffs break the link). Walkable cells
//! are held in a `pathfinding::grid::Grid` and queried with the crate's A*.

use pathfinding::grid::Grid;
use pathfinding::prelude::astar;
use vstd::prelude::*;

use crate::scene::terrain::{column_height, in_grid, spec_extent, Heightmap, MAX_GRID};

verus! {

/// Largest height difference (in voxels) an agent can step between adjacent cells.
pub const NAV_MAX_STEP: i64 = 1;

#[verifier::external_type_specification]
#[verifier::external_body]
pub struct ExGrid(Grid);

/// The vertices present in a `pathfinding` grid.
pub uninterp spec fn grid_vertices(g: Grid) -> Set<(usize, usize)>;

/// The width, height and diagonal mode a `pathfinding` grid has.
pub uninterp spec fn grid_shape(g: Grid) -> (usize, usize, bool);

/// Calls `pathfinding::grid::Grid::new`: an empty grid of the given
/// dimensions with diagonal mode disabled. The grid's later updates multiply
/// its dimensions, so they must have a product that fits in a `usize`.
#[verifier::external_body]
fn grid_new(width: usize, height: usize) -> (g: Grid)
    requires
        width * height <= usize::MAX,
    ensures
        grid_vertices(g) == Set::<(usize, usize)>::empty(),
        grid_shape(g) == (width, height, false),
{
    Grid::new(width, height)
}

/// Calls `pathfinding::grid::Grid::add_vertex`: a vertex inside the grid is
/// added (the result says whether it was absent); one outside is ignored.
/// The dimensions and diagonal mode do not change. Rebalancing its storage
/// multiplies the dimensions, which must have a product that fits in a
/// `usize`.
#[verifier::external_body]
fn grid_add_vertex(g: &mut Grid, v: (usize, usize)) -> (added: bool)
    requires
        grid_shape(*old(g)).0 * grid_shape(*old(g)).1 <= usize::MAX,
    ensures
        grid_shape(*final(g)) == grid_shape(*old(g)),
        ({
            let inside = v.0 < grid_shape(*old(g)).0 && v.1 < grid_shape(*old(g)).1;
            &&& inside ==> grid_vertices(*final(g)) == grid_vertices(*old(g)).insert(v)
            &&& !inside ==> grid_vertices(*final(g)) == grid_vertices(*old(g))
            &&& added == (inside && !grid_vertices(*old(g)).contains(v))
        }),
{
    g.add_vertex(v)
}

/// Calls `pathfinding::grid::Grid::has_vertex`: whether `v` is a vertex.
#[verifier::external_body]
fn grid_has_vertex(g: &Grid, v: (usize, usize)) -> (r: bool)
    ensures
        r == grid_vertices(*g).contains(v),
{
    g.has_vertex(v)
}

/// Whether two cells are 4-neighbours (one step along one axis).
pub open spec fn adjacent4(a: (usize, usize), b: (usize, usize)) -> bool {
    (a.0 == b.0 && (a.1 + 1 == b.1 || b.1 + 1 == a.1))
        || (a.1 == b.1 && (a.0 + 1 == b.0 || b.0 + 1 == a.0))
}

/// Calls `pathfinding::grid::Grid::neighbours`: without diagonal mode, the
/// vertices 4-adjacent to `v`, each once, or none when `v` is not a vertex.
#[verifier::external_body]
fn grid_neighbours(g: &Grid, v: (usize, usize)) -> (r: Vec<(usize, usize)>)
    ensures
        r@.no_duplicates(),
        !grid_shape(*g).2 ==> forall|q: (usize, usize)|
            #[trigger] r@.contains(q) <==> (grid_vertices(*g).contains(v) && grid_vertices(*g).contains(q)
                && adjacent4(v, q)),
{
    g.neighbours(v)
}

/// Manhattan distance between two cells.
pub open spec fn manhattan(a: (usize, usize), b: (usize, usize)) -> int {
    (if a.0 >= b.0 { a.0 - b.0 } else { b.0 - a.0 }) + (if a.1 >= b.1 { a.1 - b.1 } else { b.1 - a.1 })
}

/// Calls `pathfinding::grid::Grid::distance`: without diagonal mode, the
/// Manhattan distance.
#[verifier::external_body]
fn grid_distance(g: &Grid, a: (usize, usize), b: (usize, usize)) -> (r: usize)
    requires
        manhattan(a, b) <= usize::MAX,
    ensures
        !grid_shape(*g).2 ==> r == manhattan(a, b),
{
    g.distance(a, b)
}

/// Height of the column under a cell, looked up as the signed coords the
/// height map is indexed by.
pub open spec fn cell_height(grid: u32, heights: Seq<u32>, c: (usize, usize)) -> int {
    column_height(grid, heights, (c.0 as i64) as int, (c.1 as i64) as int) as int
}

/// Whether two columns are close enough in height to step between.
pub open spec fn spec_linked(grid: u32, heights: Seq<u32>, a: (int, int), b: (int, int)) -> bool {
    let d = column_height(grid, heights, a.0, a.1) - column_height(grid, heights, b.0, b.1);
    -NAV_MAX_STEP <= d <= NAV_MAX_STEP
}

/// The `k`-th 4-neighbour offset (−x, +x, −z, +z).
pub open spec fn spec_offset(k: int) -> (int, int) {
    if k == 0 {
        (-1, 0)
    } else if k == 1 {
        (1, 0)
    } else if k == 2 {
        (0, -1)
    } else {
        (0, 1)
    }
}

/// Whether column `(gx, gz)` has a traversable link in direction `k`: the
/// neighbour lies inside the grid and the height step is small enough.
pub open spec fn link_in_dir(grid: u32, heights: Seq<u32>, gx: int, gz: int, k: int) -> bool {
    let (dx, dz) = spec_offset(k);
    &&& in_grid(grid, gx + dx, gz + dz)
    &&& spec_linked(grid, heights, (gx, gz), (gx + dx, gz + dz))
}

/// Whether column `(gx, gz)` has at least one traversable 4-neighbour.
pub open spec fn walkable(grid: u32, heights: Seq<u32>, gx: int, gz: int) -> bool {
    link_in_dir(grid, heights, gx, gz, 0) || link_in_dir(grid, heights, gx, gz, 1)
        || link_in_dir(grid, heights, gx, gz, 2) || link_in_dir(grid, heights, gx, gz, 3)
}

/// Row-major order of cells: `a` comes before `b`.
pub open spec fn row_major_before(a: (usize, usize), b: (usize, usize)) -> bool {
    a.1 < b.1 || (a.1 == b.1 && a.0 < b.0)
}

/// A link drawn by the overlay: from a walkable column toward `+x` or `+z`.
pub open spec fn forward_link(grid: u32, heights: Seq<u32>, l: ((usize, usize), (usize, usize))) -> bool {
    let (a, b) = l;
    &&& in_grid(grid, a.0 as int, a.1 as int)
    &&& ((b.0 == a.0 + 1 && b.1 == a.1) || (b.0 == a.0 && b.1 == a.1 + 1))
    &&& in_grid(grid, b.0 as int, b.1 as int)
    &&& spec_linked(grid, heights, (a.0 as int, a.1 as int), (b.0 as int, b.1 as int))
}

/// The traversable links toward `+x` (direction 1) and `+z` (direction 3)
/// out of column `(gx, gz)`, among the first `k` directions looked at.
pub open spec fn cell_forward_links(grid: u32, heights: Seq<u32>, gx: int, gz: int, k: int) -> Seq<((usize, usize), (usize, usize))> {
    let here = (gx as usize, gz as usize);
    let east: Seq<((usize, usize), (usize, usize))> =
        if k > 1 && link_in_dir(grid, heights, gx, gz, 1) { seq![(here, ((gx + 1) as usize, gz as usize))] } else { Seq::empty() };
    let south: Seq<((usize, usize), (usize, usize))> =
        if k > 3 && link_in_dir(grid, heights, gx, gz, 3) { seq![(here, (gx as usize, (gz + 1) as usize))] } else { Seq::empty() };
    east + south
}

/// The forward links of all columns before `(gx, gz)` in row-major order,
/// in the order the scan of `NavMesh::build` meets them: cell by cell, and
/// within a cell the `+x` link before the `+z` link.
pub open spec fn scan_links(grid: u32, heights: Seq<u32>, gx: int, gz: int) -> Seq<((usize, usize), (usize, usize))>
    decreases gz, gx,
{
    if gx > 0 {
        scan_links(grid, heights, gx - 1, gz) + cell_forward_links(grid, heights, gx - 1, gz, 4)
    } else if gz > 0 {
        scan_links(grid, heights, spec_extent(grid), gz - 1)
    } else {
        Seq::empty()
    }
}

/// A grid cell whose column has at least one traversable 4-neighbour.
pub open spec fn walkable_cell(grid: u32, heights: Seq<u32>, c: (usize, usize)) -> bool {
    in_grid(grid, c.0 as int, c.1 as int) && walkable(grid, heights, c.0 as int, c.1 as int)
}

/// State of the row-major scan of `build` before column `(gx, gz)`: `cells`
/// lists, in order, exactly the walkable cells scanned so far, and `links`
/// holds, once each, exactly the forward links out of them.
spec fn scan_state(
    grid: u32,
    heights: Seq<u32>,
    cells: Seq<(usize, usize)>,
    links: Seq<((usize, usize), (usize, usize))>,
    gx: int,
    gz: int,
) -> bool {
    let here = (gx as usize, gz as usize);
    &&& 1 <= grid <= MAX_GRID
    &&& 0 <= gx <= spec_extent(grid)
    &&& 0 <= gz <= spec_extent(grid)
    &&& forall|i: int| 0 <= i < cells.len() ==> #[trigger] walkable_cell(grid, heights, cells[i])
        && row_major_before(cells[i], here)
    &&& forall|c: (usize, usize)| #[trigger] walkable_cell(grid, heights, c) && row_major_before(c, here)
        ==> cells.contains(c)
    &&& forall|i: int, j: int| 0 <= i < j < cells.len() ==> row_major_before(#[trigger] cells[i], #[trigger] cells[j])
    &&& links.no_duplicates()
    &&& forall|l: ((usize, usize), (usize, usize))| #[trigger] links.contains(l) <==> (forward_link(grid, heights, l)
        && row_major_before(l.0, here))
    &&& links == scan_links(grid, heights, gx, gz)
}

proof fn lemma_scan_step(
    grid: u32,
    heights: Seq<u32>,
    old_cells: Seq<(usize, usize)>,
    old_links: Seq<((usize, usize), (usize, usize))>,
    cells: Seq<(usize, usize)>,
    links: Seq<((usize, usize), (usize, usize))>,
    gx: int,
    gz: int,
    any_link: bool,
)
    requires
        0 <= gx < spec_extent(grid),
        0 <= gz < spec_extent(grid),
        scan_state(grid, heights, old_cells, old_links, gx, gz),
        any_link == walkable(grid, heights, gx, gz),
        cells == (if any_link { old_cells.push((gx as usize, gz as usize)) } else { old_cells }),
        links == old_links + cell_forward_links(grid, heights, gx, gz, 4),
    ensures
        scan_state(grid, heights, cells, links, gx + 1, gz),
{
    let here = (gx as usize, gz as usize);
    let next = ((gx + 1) as usize, gz as usize);
    let added = cell_forward_links(grid, heights, gx, gz, 4);
    assert(scan_links(grid, heights, gx + 1, gz) == scan_links(grid, heights, gx, gz) + added);
    assert forall|i: int| 0 <= i < cells.len() implies #[trigger] walkable_cell(grid, heights, cells[i])
        && row_major_before(cells[i], next) by {
        if i < old_cells.len() {
            assert(walkable_cell(grid, heights, old_cells[i]));
        }
    }
    assert forall|c: (usize, usize)| #[trigger] walkable_cell(grid, heights, c) && row_major_before(c, next)
        implies cells.contains(c) by {
        if row_major_before(c, here) {
            let i = choose|i: int| 0 <= i < old_cells.len() && old_cells[i] == c;
            assert(cells[i] == c);
        } else {
            assert(c == here);
            assert(cells[cells.len() - 1] == c);
        }
    }
    assert forall|i: int, j: int| 0 <= i < j < cells.len() implies row_major_before(#[trigger] cells[i], #[trigger] cells[j]) by {
        if j < old_cells.len() {
            assert(row_major_before(old_cells[i], old_cells[j]));
        } else {
            assert(walkable_cell(grid, heights, old_cells[i]));
        }
    }
    assert forall|i: int| 0 <= i < added.len() implies (#[trigger] added[i]).0 == here
        && forward_link(grid, heights, added[i]) by {}
    assert forall|i: int, j: int| 0 <= i < j < links.len() implies links[i] != links[j] by {
        if j >= old_links.len() && i < old_links.len() {
            assert(old_links.contains(old_links[i]));
            assert(added[j - old_links.len()].0 == here);
        } else if i >= old_links.len() {
            assert(added[i - old_links.len()] != added[j - old_links.len()]);
        }
    }
    assert forall|l: ((usize, usize), (usize, usize))| #[trigger] links.contains(l) <==> (forward_link(grid, heights, l)
        && row_major_before(l.0, next)) by {
        if links.contains(l) {
            let i = choose|i: int| 0 <= i < links.len() && links[i] == l;
            if i < old_links.len() {
                assert(old_links.contains(l));
            } else {
                assert(added[i - old_links.len()] == l);
            }
        }
        if forward_link(grid, heights, l) && row_major_before(l.0, next) {
            if row_major_before(l.0, here) {
                assert(old_links.contains(l));
                let i = choose|i: int| 0 <= i < old_links.len() && old_links[i] == l;
                assert(links[i] == l);
            } else {
                assert(l.0 == here);
                if l.1 == ((gx + 1) as usize, gz as usize) {
                    assert(link_in_dir(grid, heights, gx, gz, 1));
                    assert(links[old_links.len() as int] == l);
                } else {
                    assert(link_in_dir(grid, heights, gx, gz, 3));
                    assert(links[links.len() - 1] == l);
                }
            }
        }
    }
}

proof fn lemma_scan_row_end(
    grid: u32,
    heights: Seq<u32>,
    cells: Seq<(usize, usize)>,
    links: Seq<((usize, usize), (usize, usize))>,
    gz: int,
)
    requires
        0 <= gz < spec_extent(grid),
        scan_state(grid, heights, cells, links, spec_extent(grid), gz),
    ensures
        scan_state(grid, heights, cells, links, 0, gz + 1),
{
    let e = spec_extent(grid);
    let next = ((0 as int) as usize, (gz + 1) as usize);
    assert forall|i: int| 0 <= i < cells.len() implies #[trigger] walkable_cell(grid, heights, cells[i])
        && row_major_before(cells[i], next) by {
        assert(walkable_cell(grid, heights, cells[i]));
    }
    assert forall|c: (usize, usize)| #[trigger] walkable_cell(grid, heights, c)
        && row_major_before(c, next) implies cells.contains(c) by {
        assert(row_major_before(c, (e as usize, gz as usize)));
    }
    assert forall|l: ((usize, usize), (usize, usize))| #[trigger] links.contains(l) <==> (forward_link(grid, heights, l)
        && row_major_before(l.0, next)) by {
        if forward_link(grid, heights, l) {
            assert(row_major_before(l.0, next) == row_major_before(l.0, (e as usize, gz as usize)));
        }
    }
}

proof fn lemma_scan_done(
    grid: u32,
    heights: Seq<u32>,
    cells: Seq<(usize, usize)>,
    links: Seq<((usize, usize), (usize, usize))>,
)
    requires
        1 <= grid <= MAX_GRID,
        scan_state(grid, heights, cells, links, 0, spec_extent(grid)),
    ensures
        forall|i: int| 0 <= i < cells.len() ==> #[trigger] walkable_cell(grid, heights, cells[i]),
        forall|i: int| 0 <= i < cells.len() ==> #[trigger] cells[i].0 < spec_extent(MAX_GRID)
            && cells[i].1 < spec_extent(MAX_GRID),
        forall|c: (usize, usize)| #[trigger] walkable_cell(grid, heights, c) ==> cells.contains(c),
        forall|l: ((usize, usize), (usize, usize))| #[trigger] links.contains(l) <==> forward_link(grid, heights, l),
{
    assert forall|i: int| 0 <= i < cells.len() implies #[trigger] cells[i].0 < spec_extent(MAX_GRID)
        && cells[i].1 < spec_extent(MAX_GRID) by {
        assert(walkable_cell(grid, heights, cells[i]));
    }
    assert forall|c: (usize, usize)| #[trigger] walkable_cell(grid, heights, c) implies cells.contains(c) by {
        assert(row_major_before(c, (0usize, spec_extent(grid) as usize)));
    }
    assert forall|l: ((usize, usize), (usize, usize))| #[trigger] links.contains(l) <==> forward_link(grid, heights, l) by {
        if forward_link(grid, heights, l) {
            assert(row_major_before(l.0, (0usize, spec_extent(grid) as usize)));
        }
    }
}

/// An edge of the navigation graph over `cells`: both ends are walkable
/// cells, they are 4-neighbours, and the height step is at most one voxel.
pub open spec fn nav_edge(cells: Set<(usize, usize)>, grid: u32, heights: Seq<u32>, p: (usize, usize), q: (usize, usize)) -> bool {
    &&& cells.contains(p)
    &&& cells.contains(q)
    &&& adjacent4(p, q)
    &&& -NAV_MAX_STEP <= cell_height(grid, heights, p) - cell_height(grid, heights, q) <= NAV_MAX_STEP
}

/// `w` walks the navigation graph from `start` to `goal`, one edge per step
/// (a single cell when `start == goal`).
pub open spec fn is_walk(
    cells: Set<(usize, usize)>,
    grid: u32,
    heights: Seq<u32>,
    w: Seq<(usize, usize)>,
    start: (usize, usize),
    goal: (usize, usize),
) -> bool {
    &&& w.len() >= 1
    &&& w[0] == start
    &&& w[w.len() - 1] == goal
    &&& forall|i: int| 0 <= i < w.len() - 1 ==> #[trigger] nav_edge(cells, grid, heights, w[i], w[i + 1])
}

/// `p` is a shortest walk from `start` to `goal`.
pub open spec fn is_shortest_walk(
    cells: Set<(usize, usize)>,
    grid: u32,
    heights: Seq<u32>,
    p: Seq<(usize, usize)>,
    start: (usize, usize),
    goal: (usize, usize),
) -> bool {
    &&& is_walk(cells, grid, heights, p, start, goal)
    &&& forall|w: Seq<(usize, usize)>| #[trigger] is_walk(cells, grid, heights, w, start, goal) ==> p.len() <= w.len()
}

/// Calls `pathfinding::prelude::astar` from `start`, with the navigation
/// graph's successors at unit cost, the grid's Manhattan distance to `goal`
/// as heuristic (it never overestimates a unit-cost 4-neighbour walk), and
/// success at `goal`. As the crate documents, a shortest path including
/// both ends is returned, or `None` when no path exists. Which of several
/// equally short paths comes back is not stated. The goal is a cell, so the
/// heuristic is at most `2 · 256` and every path cost at most the number of
/// cells plus one: the crate's sums of cost and heuristic stay in range.
#[verifier::external_body]
fn astar_route(nav: &NavMesh, hm: &Heightmap, start: (usize, usize), goal: (usize, usize)) -> (r: Option<Vec<(usize, usize)>>)
    requires
        nav.wf(),
        hm.wf(),
        nav@.contains(goal),
    ensures
        r matches Some(p) ==> is_shortest_walk(nav@.to_set(), hm@.0, hm@.1, p@, start, goal),
        r is None ==> forall|w: Seq<(usize, usize)>| !#[trigger] is_walk(nav@.to_set(), hm@.0, hm@.1, w, start, goal),
{
    astar(
        &start,
        |p| nav.successors(hm, *p),
        |p| nav.heuristic(*p, goal),
        |p| same_cell(*p, goal),
    ).map(|(path, _cost)| path)
}

/// Whether two cells are the same.
fn same_cell(a: (usize, usize), b: (usize, usize)) -> (r: bool)
    ensures
        r == (a == b),
{
    a.0 == b.0 && a.1 == b.1
}

/// The `k`-th 4-neighbour offset (−x, +x, −z, +z).
fn neighbour_offset(k: usize) -> (r: (i64, i64))
    requires
        k < 4,
    ensures
        r.0 == spec_offset(k as int).0,
        r.1 == spec_offset(k as int).1,
{
    if k == 0 {
        (-1, 0)
    } else if k == 1 {
        (1, 0)
    } else if k == 2 {
        (0, -1)
    } else {
        (0, 1)
    }
}

/// Walkable surface graph for the current world: a `pathfinding` grid of the
/// walkable cells, the cells in row-major order, and the links toward `+x` /
/// `+z` (each link once) for the debug overlay.
pub struct NavMesh {
    grid: Grid,
    cells: Vec<(usize, usize)>,
    links: Vec<((usize, usize), (usize, usize))>,
}

impl View for NavMesh {
    /// The walkable cells, in row-major order.
    type V = Seq<(usize, usize)>;

    closed spec fn view(&self) -> Seq<(usize, usize)> {
        self.cells@
    }
}

impl NavMesh {
    /// The grid holds exactly the walkable cells, without diagonal links, and
    /// every cell lies within the largest world.
    pub closed spec fn wf(&self) -> bool {
        &&& grid_vertices(self.grid) == self.cells@.to_set()
        &&& !grid_shape(self.grid).2
        &&& forall|i: int|
            0 <= i < self.cells@.len() ==> #[trigger] self.cells@[i].0 < spec_extent(MAX_GRID)
                && self.cells@[i].1 < spec_extent(MAX_GRID)
    }

    /// The links drawn by the overlay.
    pub closed spec fn spec_links(&self) -> Seq<((usize, usize), (usize, usize))> {
        self.links@
    }

    /// Whether two columns are close enough in height to step between.
    pub fn linked(hm: &Heightmap, a: (i64, i64), b: (i64, i64)) -> (r: bool)
        requires
            hm.wf(),
        ensures
            r == spec_linked(hm@.0, hm@.1, (a.0 as int, a.1 as int), (b.0 as int, b.1 as int)),
            r == (-1 <= hm.spec_height(a.0 as int, a.1 as int) - hm.spec_height(b.0 as int, b.1 as int) <= 1),
    {
        let ha = hm.height(a.0, a.1) as i64;
        let hb = hm.height(b.0, b.1) as i64;
        let d = ha - hb;
        -NAV_MAX_STEP <= d && d <= NAV_MAX_STEP
    }

    /// Look at the four neighbours of column `(gx, gz)`: whether any is
    /// traversable, and append the traversable links toward `+x` / `+z`.
    fn scan_cell(hm: &Heightmap, gx: i64, gz: i64, links: &mut Vec<((usize, usize), (usize, usize))>) -> (any_link: bool)
        requires
            hm.wf(),
            in_grid(hm@.0, gx as int, gz as int),
        ensures
            any_link == walkable(hm@.0, hm@.1, gx as int, gz as int),
            final(links)@ == old(links)@ + cell_forward_links(hm@.0, hm@.1, gx as int, gz as int, 4),
    {
        let ghost grid_n = hm@.0;
        let ghost heights = hm@.1;
        let e: i64 = hm.extent() as i64;
        let mut any_link = false;
        let mut k: usize = 0;
        while k < 4
            invariant
                hm.wf(),
                grid_n == hm@.0,
                heights == hm@.1,
                e == spec_extent(grid_n),
                in_grid(grid_n, gx as int, gz as int),
                k <= 4,
                any_link == exists|j: int| 0 <= j < k && #[trigger] link_in_dir(grid_n, heights, gx as int, gz as int, j),
                links@ == old(links)@ + cell_forward_links(grid_n, heights, gx as int, gz as int, k as int),
            decreases 4 - k,
        {
            let (dx, dz) = neighbour_offset(k);
            let nx = gx + dx;
            let nz = gz + dz;
            if nx < 0 || nz < 0 || nx >= e || nz >= e {
                assert(!link_in_dir(grid_n, heights, gx as int, gz as int, k as int));
            } else if !Self::linked(hm, (gx, gz), (nx, nz)) {
                assert(!link_in_dir(grid_n, heights, gx as int, gz as int, k as int));
            } else {
                assert(link_in_dir(grid_n, heights, gx as int, gz as int, k as int));
                any_link = true;
                // Only record links toward +x / +z so each link is listed once.
                if dx > 0 || dz > 0 {
                    links.push(((gx as usize, gz as usize), (nx as usize, nz as usize)));
                }
            }
            assert(cell_forward_links(grid_n, heights, gx as int, gz as int, k + 1)
                =~= cell_forward_links(grid_n, heights, gx as int, gz as int, k as int)
                    + (if (k == 1 || k == 3) && link_in_dir(grid_n, heights, gx as int, gz as int, k as int) {
                        seq![((gx as usize, gz as usize), ((gx + spec_offset(k as int).0) as usize, (gz + spec_offset(k as int).1) as usize))]
                    } else {
                        Seq::empty()
                    }));
            k = k + 1;
        }
        assert(any_link == walkable(grid_n, heights, gx as int, gz as int)) by {
            if walkable(grid_n, heights, gx as int, gz as int) {
                if link_in_dir(grid_n, heights, gx as int, gz as int, 0) {
                } else if link_in_dir(grid_n, heights, gx as int, gz as int, 1) {
                } else if link_in_dir(grid_n, heights, gx as int, gz as int, 2) {
                } else {
                    assert(link_in_dir(grid_n, heights, gx as int, gz as int, 3));
                }
            }
        }
        any_link
    }

    /// Build the navigation graph of a height map: every column with at least
    /// one traversable 4-neighbour is a cell.
    pub fn build(hm: &Heightmap) -> (nav: NavMesh)
        requires
            hm.wf(),
        ensures
            nav.wf(),
            forall|i: int| 0 <= i < nav@.len() ==> #[trigger] walkable_cell(hm@.0, hm@.1, nav@[i]),
            forall|c: (usize, usize)| #[trigger] walkable_cell(hm@.0, hm@.1, c) ==> nav@.contains(c),
            forall|i: int, j: int|
                0 <= i < j < nav@.len() ==> row_major_before(#[trigger] nav@[i], #[trigger] nav@[j]),
            nav.spec_links() == scan_links(hm@.0, hm@.1, 0, spec_extent(hm@.0)),
            nav.spec_links().no_duplicates(),
            forall|l: ((usize, usize), (usize, usize))|
                #[trigger] nav.spec_links().contains(l) <==> forward_link(hm@.0, hm@.1, l),
    {
        let ghost grid_n = hm@.0;
        let ghost heights = hm@.1;
        proof {
            hm.lemma_valid();
        }
        let extent: u32 = hm.extent();
        let e: i64 = extent as i64;
        assert(extent * extent <= 256 * 256) by (nonlinear_arith)
            requires
                0 <= extent <= 256,
        ;
        let mut grid = grid_new(extent as usize, extent as usize);
        let mut cells: Vec<(usize, usize)> = Vec::new();
        let mut links: Vec<((usize, usize), (usize, usize))> = Vec::new();
        let mut gz: i64 = 0;
        while gz < e
            invariant
                hm.wf(),
                grid_n == hm@.0,
                heights == hm@.1,
                e == spec_extent(grid_n),
                1 <= grid_n <= MAX_GRID,
                e * e <= 256 * 256,
                0 <= gz <= e,
                grid_shape(grid) == (e as usize, e as usize, false),
                grid_vertices(grid) == cells@.to_set(),
                scan_state(grid_n, heights, cells@, links@, 0, gz as int),
            decreases e - gz,
        {
            let mut gx: i64 = 0;
            while gx < e
                invariant
                    hm.wf(),
                    grid_n == hm@.0,
                    heights == hm@.1,
                    e == spec_extent(grid_n),
                    1 <= grid_n <= MAX_GRID,
                    e * e <= 256 * 256,
                    0 <= gz < e,
                    0 <= gx <= e,
                    grid_shape(grid) == (e as usize, e as usize, false),
                    grid_vertices(grid) == cells@.to_set(),
                    scan_state(grid_n, heights, cells@, links@, gx as int, gz as int),
                decreases e - gx,
            {
                let ghost old_cells = cells@;
                let ghost old_links = links@;
                let any_link = Self::scan_cell(hm, gx, gz, &mut links);
                // A cell with no traversable neighbour (isolated pillar or
                // cliff-top) is left out of the graph.
                if any_link {
                    let cell = (gx as usize, gz as usize);
                    grid_add_vertex(&mut grid, cell);
                    proof {
                        cells@.lemma_push_to_set_commute(cell);
                    }
                    cells.push(cell);
                }
                proof {
                    lemma_scan_step(grid_n, heights, old_cells, old_links, cells@, links@, gx as int, gz as int, any_link);
                }
                gx = gx + 1;
            }
            proof {
                lemma_scan_row_end(grid_n, heights, cells@, links@, gz as int);
            }
            gz = gz + 1;
        }
        proof {
            lemma_scan_done(grid_n, heights, cells@, links@);
        }
        NavMesh { grid, cells, links }
    }

    /// All walkable cells, in row-major order, for picking random destinations.
    pub fn cells(&self) -> (r: &Vec<(usize, usize)>)
        ensures
            r@ == self@,
    {
        &self.cells
    }

    /// The overlay links: each traversable step toward `+x` or `+z`, once.
    pub fn links(&self) -> (r: &Vec<((usize, usize), (usize, usize))>)
        ensures
            r@ == self.spec_links(),
    {
        &self.links
    }

    /// The steps out of cell `p`, each at unit cost.
    fn successors(&self, hm: &Heightmap, p: (usize, usize)) -> (r: Vec<((usize, usize), usize)>)
        requires
            self.wf(),
            hm.wf(),
        ensures
            forall|q: (usize, usize), c: usize|
                #[trigger] r@.contains((q, c)) <==> (c == 1 && nav_edge(self@.to_set(), hm@.0, hm@.1, p, q)),
    {
        let hp = hm.height(p.0 as i64, p.1 as i64) as i64;
        let ns = grid_neighbours(&self.grid, p);
        let mut r: Vec<((usize, usize), usize)> = Vec::new();
        let mut i: usize = 0;
        while i < ns.len()
            invariant
                self.wf(),
                hm.wf(),
                hp == cell_height(hm@.0, hm@.1, p),
                i <= ns@.len(),
                forall|q: (usize, usize)|
                    #[trigger] ns@.contains(q) <==> (self@.to_set().contains(p) && self@.to_set().contains(q)
                        && adjacent4(p, q)),
                forall|q: (usize, usize), c: usize|
                    #[trigger] r@.contains((q, c)) <==> (c == 1 && exists|j: int| 0 <= j < i && ns@[j] == q
                        && nav_edge(self@.to_set(), hm@.0, hm@.1, p, q)),
            decreases ns@.len() - i,
        {
            let n = ns[i];
            let hn = hm.height(n.0 as i64, n.1 as i64) as i64;
            let d = hn - hp;
            let ghost before = r@;
            assert(ns@.contains(n));
            if -NAV_MAX_STEP <= d && d <= NAV_MAX_STEP {
                r.push((n, 1));
                assert forall|q: (usize, usize), c: usize|
                    #[trigger] r@.contains((q, c)) <==> (c == 1 && exists|j: int| 0 <= j < i + 1 && ns@[j] == q
                        && nav_edge(self@.to_set(), hm@.0, hm@.1, p, q)) by {
                    if r@.contains((q, c)) && (q, c) != (n, 1usize) {
                        let idx = choose|idx: int| 0 <= idx < r@.len() && r@[idx] == (q, c);
                        assert(before[idx] == (q, c));
                        assert(before.contains((q, c)));
                    }
                    if c == 1 && (exists|j: int| 0 <= j < i + 1 && ns@[j] == q
                        && nav_edge(self@.to_set(), hm@.0, hm@.1, p, q)) {
                        if q != n {
                            let j = choose|j: int| 0 <= j < i + 1 && ns@[j] == q;
                            assert(j < i);
                            assert(before.contains((q, c)));
                            let idx = choose|idx: int| 0 <= idx < before.len() && before[idx] == (q, c);
                            assert(r@[idx] == (q, c));
                        } else {
                            assert(r@[r@.len() - 1] == (q, c));
                        }
                    }
                }
            } else {
                assert(!nav_edge(self@.to_set(), hm@.0, hm@.1, p, n));
            }
            i = i + 1;
        }
        assert forall|q: (usize, usize), c: usize|
            #[trigger] r@.contains((q, c)) <==> (c == 1 && nav_edge(self@.to_set(), hm@.0, hm@.1, p, q)) by {
            if c == 1 && nav_edge(self@.to_set(), hm@.0, hm@.1, p, q) {
                assert(ns@.contains(q));
            }
        }
        r
    }

    /// A* heuristic: the grid distance from `p` to `goal`.
    fn heuristic(&self, p: (usize, usize), goal: (usize, usize)) -> (r: usize)
        requires
            self.wf(),
            p.0 < spec_extent(MAX_GRID),
            p.1 < spec_extent(MAX_GRID),
            goal.0 < spec_extent(MAX_GRID),
            goal.1 < spec_extent(MAX_GRID),
        ensures
            r == manhattan(p, goal),
    {
        grid_distance(&self.grid, p, goal)
    }

    /// A shortest walk of cells from `start` to `goal` (inclusive of both),
    /// or `None` if unreachable. Adjacent cells only link when the height step
    /// is at most `NAV_MAX_STEP`, so cliffs aren't crossed. Uniform step cost.
    /// A walk from a cell to itself is that one cell; a goal that is not a
    /// cell cannot be reached from any other cell.
    pub fn find_path(&self, hm: &Heightmap, start: (usize, usize), goal: (usize, usize)) -> (r: Option<Vec<(usize, usize)>>)
        requires
            self.wf(),
            hm.wf(),
        ensures
            r matches Some(p) ==> is_shortest_walk(self@.to_set(), hm@.0, hm@.1, p@, start, goal),
            r is None <==> forall|w: Seq<(usize, usize)>| !#[trigger] is_walk(self@.to_set(), hm@.0, hm@.1, w, start, goal),
    {
        if same_cell(start, goal) {
            let mut p: Vec<(usize, usize)> = Vec::new();
            p.push(start);
            assert(is_walk(self@.to_set(), hm@.0, hm@.1, p@, start, goal));
            return Some(p);
        }
        if !grid_has_vertex(&self.grid, goal) {
            assert forall|w: Seq<(usize, usize)>| !#[trigger] is_walk(self@.to_set(), hm@.0, hm@.1, w, start, goal) by {
                if is_walk(self@.to_set(), hm@.0, hm@.1, w, start, goal) {
                    let k = w.len() - 2;
                    assert(nav_edge(self@.to_set(), hm@.0, hm@.1, w[k], w[k + 1]));
                }
            }
            return None;
        }
        astar_route(self, hm, start, goal)
    }
}

/// The waypoint stack of an agent following `path`: the path reversed so that
/// popping yields the next waypoint, without the start cell.
pub open spec fn spec_waypoints(path: Seq<(usize, usize)>) -> Seq<(usize, usize)> {
    if path.len() == 0 {
        path
    } else {
        path.reverse().drop_last()
    }
}

/// Turn a found path into an agent's waypoint stack: reverse it so that
/// `pop()` yields the next waypoint, and drop the start cell.
pub fn waypoints(path: Vec<(usize, usize)>) -> (r: Vec<(usize, usize)>)
    ensures
        r@ == spec_waypoints(path@),
{
    let mut r: Vec<(usize, usize)> = Vec::new();
    let n = path.len();
    if n == 0 {
        return r;
    }
    let mut i: usize = n;
    while i > 1
        invariant
            n == path@.len(),
            1 <= i <= n,
            r@.len() == n - i,
            forall|j: int| 0 <= j < r@.len() ==> #[trigger] r@[j] == path@[n - 1 - j],
        decreases i,
    {
        i = i - 1;
        r.push(path[i]);
    }
    assert(r@ =~= path@.reverse().drop_last());
    r
}

/// A walk of the navigation graph read backwards is a walk from its goal to
/// its start: every link can be travelled both ways.
pub proof fn lemma_walk_reverse(
    cells: Set<(usize, usize)>,
    grid: u32,
    heights: Seq<u32>,
    w: Seq<(usize, usize)>,
    start: (usize, usize),
    goal: (usize, usize),
)
    requires
        is_walk(cells, grid, heights, w, start, goal),
    ensures
        is_walk(cells, grid, heights, w.reverse(), goal, start),
        w.reverse().len() == w.len(),
{
    let r = w.reverse();
    assert forall|i: int| 0 <= i < r.len() - 1 implies #[trigger] nav_edge(cells, grid, heights, r[i], r[i + 1]) by {
        let k = w.len() - 2 - i;
        assert(nav_edge(cells, grid, heights, w[k], w[k + 1]));
        assert(r[i] == w[k + 1]);
        assert(r[i + 1] == w[k]);
    }
}

/// Every cell a walk of more than one cell passes through is a walkable
/// cell, and each step climbs or drops at most one voxel.
pub proof fn lemma_walk_stays_on_cells(
    cells: Set<(usize, usize)>,
    grid: u32,
    heights: Seq<u32>,
    w: Seq<(usize, usize)>,
    start: (usize, usize),
    goal: (usize, usize),
    i: int,
)
    requires
        is_walk(cells, grid, heights, w, start, goal),
        w.len() >= 2,
        0 <= i < w.len(),
    ensures
        cells.contains(w[i]),
        i + 1 < w.len() ==> -NAV_MAX_STEP <= cell_height(grid, heights, w[i]) - cell_height(grid, heights, w[i + 1]) <= NAV_MAX_STEP,
{
    if i + 1 < w.len() {
        assert(nav_edge(cells, grid, heights, w[i], w[i + 1]));
    } else {
        let k = i - 1;
        assert(nav_edge(cells, grid, heights, w[k], w[k + 1]));
    }
}

/// A shortest walk never visits a cell twice: cutting out the loop between two
/// visits would give a shorter walk.
pub proof fn lemma_shortest_walk_no_repeats(
    cells: Set<(usize, usize)>,
    grid: u32,
    heights: Seq<u32>,
    p: Seq<(usize, usize)>,
    start: (usize, usize),
    goal: (usize, usize),
)
    requires
        is_shortest_walk(cells, grid, heights, p, start, goal),
    ensures
        p.no_duplicates(),
{
    assert forall|i: int, j: int| 0 <= i < j < p.len() implies p[i] != p[j] by {
        if p[i] == p[j] {
            let w = p.subrange(0, i + 1) + p.subrange(j + 1, p.len() as int);
            assert(w.len() == p.len() - (j - i));
            assert(w[0] == start);
            assert(w[w.len() - 1] == goal) by {
                if j + 1 < p.len() {
                    assert(w[w.len() - 1] == p[p.len() - 1]);
                } else {
                    assert(w[w.len() - 1] == p[i]);
                }
            }
            assert forall|k: int| 0 <= k < w.len() - 1 implies #[trigger] nav_edge(cells, grid, heights, w[k], w[k + 1]) by {
                if k < i {
                    assert(w[k] == p[k] && w[k + 1] == p[k + 1]);
                    assert(nav_edge(cells, grid, heights, p[k], p[k + 1]));
                } else if k == i {
                    assert(w[k] == p[j]);
                    assert(w[k + 1] == p[j + 1]);
                    assert(nav_edge(cells, grid, heights, p[j], p[j + 1]));
                } else {
                    let m = k + (j - i);
                    assert(w[k] == p[m] && w[k + 1] == p[m + 1]);
                    assert(nav_edge(cells, grid, heights, p[m], p[m + 1]));
                }
            }
            assert(is_walk(cells, grid, heights, w, start, goal));
        }
    }
}

/// Two columns are linked exactly when their heights differ by at most one
/// voxel, whichever way the step goes, so linking is symmetric.
pub proof fn lemma_linked_is_one_voxel_step(grid: u32, heights: Seq<u32>, a: (int, int), b: (int, int))
    ensures
        spec_linked(grid, heights, a, b) <==> (
            column_height(grid, heights, a.0, a.1) <= column_height(grid, heights, b.0, b.1) + 1
            && column_height(grid, heights, b.0, b.1) <= column_height(grid, heights, a.0, a.1) + 1),
        spec_linked(grid, heights, a, b) == spec_linked(grid, heights, b, a),
{
}

/// An overlay link toward `+x` or `+z` is present exactly when both columns
/// are in the grid and their heights differ by at most one voxel; a step of
/// the navigation graph is exactly a move between two walkable 4-neighbour
/// cells whose heights differ by at most one voxel.
pub proof fn lemma_links_and_steps_are_one_voxel(
    grid: u32,
    heights: Seq<u32>,
    cells: Set<(usize, usize)>,
    a: (usize, usize),
    b: (usize, usize),
)
    ensures
        (b == ((a.0 + 1) as usize, a.1) || b == (a.0, (a.1 + 1) as usize)) && a.0 + 1 <= usize::MAX && a.1 + 1 <= usize::MAX ==> (
            forward_link(grid, heights, (a, b)) <==> (
                in_grid(grid, a.0 as int, a.1 as int) && in_grid(grid, b.0 as int, b.1 as int)
                && column_height(grid, heights, a.0 as int, a.1 as int) <= column_height(grid, heights, b.0 as int, b.1 as int) + 1
                && column_height(grid, heights, b.0 as int, b.1 as int) <= column_height(grid, heights, a.0 as int, a.1 as int) + 1)),
        nav_edge(cells, grid, heights, a, b) <==> (
            cells.contains(a) && cells.contains(b) && adjacent4(a, b)
            && cell_height(grid, heights, a) <= cell_height(grid, heights, b) + 1
            && cell_height(grid, heights, b) <= cell_height(grid, heights, a) + 1),
        nav_edge(cells, grid, heights, a, b) == nav_edge(cells, grid, heights, b, a),
{
}

/// The waypoint stack of a non-empty path has one entry fewer than the path
/// (the start cell is dropped), its entries are the path's cells from the goal
/// back to the second cell, so the last entry (the next one popped) is the
/// cell after the start and the first is the goal.
pub proof fn lemma_waypoints_reverse_path(path: Seq<(usize, usize)>)
    ensures
        path.len() == 0 ==> spec_waypoints(path).len() == 0,
        path.len() >= 1 ==> spec_waypoints(path).len() == path.len() - 1,
        path.len() >= 1 ==> forall|j: int|
            0 <= j < path.len() - 1 ==> #[trigger] spec_waypoints(path)[j] == path[path.len() - 1 - j],
        path.len() >= 2 ==> spec_waypoints(path)[0] == path[path.len() - 1]
            && spec_waypoints(path)[path.len() - 2] == path[1],
{
}

} // verus!
