//! Unweighted breadth-first pathfinder over the walkability grid.
//!
//! The search expands in eight directions with a fixed pixel step, rejects
//! cells that are not walkable (skipped entirely for fliers), terminates on
//! entering a fixed radius of the goal, and returns the recorded waypoint
//! sequence, or nothing once the frontier is exhausted.  A variant
//! additionally rejects cells close to any hostile position.

use vstd::prelude::*;
use std::collections::VecDeque;
use crate::geom::dist_sq;

verus! {

/// Walkability raster in walk tiles (8 x 8 pixels each), row-major.
pub struct WalkGrid {
    pub width: usize,
    pub height: usize,
    pub cells: Vec<bool>,
}

impl WalkGrid {
    /// The raster is rectangular and no larger than the engine's map limit.
    pub open spec fn wf(&self) -> bool {
        self.cells@.len() == self.width * self.height
        && self.width <= 1024
        && self.height <= 1024
    }

    /// Walkability of the walk tile holding pixel `(x, y)`; pixels outside
    /// the raster are not walkable.
    pub open spec fn walkable_px(&self, x: int, y: int) -> bool {
        0 <= x < self.width * 8 && 0 <= y < self.height * 8
            && self.cells@[(y / 8) * (self.width as int) + (x / 8)]
    }

    /// Whether pixel `(x, y)` lies on the map at all.
    pub open spec fn in_bounds_px(&self, x: int, y: int) -> bool {
        0 <= x < self.width * 8 && 0 <= y < self.height * 8
    }

    pub fn new(width: usize, height: usize, cells: Vec<bool>) -> (r: WalkGrid)
        requires
            cells@.len() == width * height,
            width <= 1024,
            height <= 1024,
        ensures
            r.wf(),
            r.width == width,
            r.height == height,
            r.cells@ == cells@,
    {
        WalkGrid { width, height, cells }
    }

    /// Reads the raster at pixel `(x, y)`, deciding `walkable_px` exactly.
    pub fn is_walkable_px(&self, x: i32, y: i32) -> (r: bool)
        requires
            self.wf(),
        ensures
            r == self.walkable_px(x as int, y as int),
    {
        if x < 0 || y < 0 {
            return false;
        }
        let wx: usize = (x as usize) / 8;
        let wy: usize = (y as usize) / 8;
        if wx >= self.width || wy >= self.height {
            proof {
                if 0 <= x && (x as int) < self.width * 8 && 0 <= y
                    && (y as int) < self.height * 8 {
                    assert(wx as int == (x as int) / 8 && (x as int) / 8 < self.width as int)
                        by (nonlinear_arith)
                        requires
                            wx as int == (x as int) / 8,
                            0 <= (x as int) < self.width * 8;
                    assert(wy as int == (y as int) / 8 && (y as int) / 8 < self.height as int)
                        by (nonlinear_arith)
                        requires
                            wy as int == (y as int) / 8,
                            0 <= (y as int) < self.height * 8;
                }
            }
            return false;
        }
        proof {
            assert(wy * self.width + wx < self.width * self.height
                && self.width * self.height <= 0x10_0000) by (nonlinear_arith)
                requires
                    (wx as int) < self.width as int,
                    (wy as int) < self.height as int,
                    0 <= wx as int,
                    0 <= wy as int,
                    self.width <= 1024,
                    self.height <= 1024;
            assert((x as int) < self.width * 8 && (y as int) < self.height * 8)
                by (nonlinear_arith)
                requires
                    (x as int) / 8 == wx as int,
                    (y as int) / 8 == wy as int,
                    (wx as int) < self.width as int,
                    (wy as int) < self.height as int,
                    0 <= x,
                    0 <= y;
        }
        self.cells[wy * self.width + wx]
    }
}

/// One waypoint step: an eight-directional move of exactly fifteen pixels
/// per moved axis.
pub open spec fn is_step(ax: int, ay: int, bx: int, by: int) -> bool {
    let dx = bx - ax;
    let dy = by - ay;
    (dx == 0 || dx == 15 || dx == -15) && (dy == 0 || dy == 15 || dy == -15)
        && !(dx == 0 && dy == 0)
}

/// Whether `(x, y)` reached the goal: within three steps (45 pixels) of it.
pub open spec fn near_goal(x: int, y: int, ex: int, ey: int) -> bool {
    dist_sq(x, y, ex, ey) <= 45 * 45
}

/// Whether the position keeps the avoidance distance from every hostile.
pub open spec fn clear_of_hostiles(p: (i32, i32), hostiles: Seq<(i32, i32)>) -> bool {
    forall|j: int| 0 <= j < hostiles.len()
        ==> dist_sq(p.0 as int, p.1 as int, hostiles[j].0 as int, hostiles[j].1 as int)
            >= 200 * 200
}

/// What the pathfinder promises of a returned waypoint sequence: it starts at
/// `start`, moves in fixed grid steps, stays on the map and (for walkers) on
/// walkable ground, keeps clear of the given hostiles after the first
/// waypoint, and ends within the goal radius of `end`.
pub open spec fn valid_path(
    grid: &WalkGrid,
    p: Seq<(i32, i32)>,
    start: (i32, i32),
    end: (i32, i32),
    is_flier: bool,
    hostiles: Seq<(i32, i32)>,
) -> bool {
    p.len() >= 1 && p[0] == start
    && (forall|i: int| 1 <= i < p.len() ==> is_step(
        p[i - 1].0 as int, p[i - 1].1 as int, #[trigger] p[i].0 as int, p[i].1 as int))
    && (forall|i: int| 1 <= i < p.len()
        ==> grid.in_bounds_px(#[trigger] p[i].0 as int, p[i].1 as int))
    && (forall|i: int| 1 <= i < p.len()
        ==> is_flier || grid.walkable_px(#[trigger] p[i].0 as int, p[i].1 as int))
    && (forall|i: int| 1 <= i < p.len() ==> clear_of_hostiles(#[trigger] p[i], hostiles))
    && near_goal(p[p.len() - 1].0 as int, p[p.len() - 1].1 as int, end.0 as int, end.1 as int)
}

/// Number of cells of the search lattice not yet visited; the search's
/// termination measure.
pub closed spec fn count_unvisited(s: Seq<bool>, i: int) -> int
    decreases i,
{
    if i <= 0 {
        0
    } else {
        count_unvisited(s, i - 1) + if s[i - 1] { 0int } else { 1int }
    }
}

proof fn lemma_count_unvisited_nonneg(s: Seq<bool>, i: int)
    ensures
        count_unvisited(s, i) >= 0,
    decreases i,
{
    if i > 0 {
        lemma_count_unvisited_nonneg(s, i - 1);
    }
}

proof fn lemma_count_unvisited_update(s: Seq<bool>, j: int, i: int)
    requires
        0 <= j < s.len(),
        !s[j],
        i <= s.len(),
    ensures
        j < i ==> count_unvisited(s.update(j, true), i) == count_unvisited(s, i) - 1,
        j >= i ==> count_unvisited(s.update(j, true), i) == count_unvisited(s, i),
    decreases i,
{
    if i > 0 {
        lemma_count_unvisited_update(s, j, i - 1);
    }
}

/// Copies a waypoint list.
fn copy_path(p: &Vec<(i32, i32)>) -> (r: Vec<(i32, i32)>)
    ensures
        r@ == p@,
{
    let mut r: Vec<(i32, i32)> = Vec::new();
    let mut i: usize = 0;
    while i < p.len()
        invariant
            i <= p.len(),
            r@ == p@.subrange(0, i as int),
        decreases p.len() - i,
    {
        r.push(p[i]);
        i += 1;
        proof {
            assert(r@ =~= p@.subrange(0, i as int));
        }
    }
    proof {
        assert(r@ =~= p@);
    }
    r
}

/// The lattice point at offset `(a, b)` steps from `start`.
pub open spec fn lat_pt(start: (i32, i32), a: int, b: int) -> (int, int) {
    (start.0 + 15 * a, start.1 + 15 * b)
}

/// Whether `q` lies on the fifteen-pixel search lattice anchored at `start`.
pub open spec fn on_lattice(start: (i32, i32), q: (i32, i32)) -> bool {
    exists|a: int, b: int| (q.0 as int, q.1 as int) == #[trigger] lat_pt(start, a, b)
}

/// The search-lattice cell index of a nonnegative pixel position.
pub open spec fn cellix(q: (i32, i32)) -> int {
    ((q.1 as int) / 15) * 547 + (q.0 as int) / 15
}

/// A nonnegative lattice coordinate's cell column determines its offset.
proof fn lemma_lattice_div(s: int, a: int)
    requires
        s >= 0,
        s + 15 * a >= 0,
    ensures
        (s + 15 * a) / 15 == a + s / 15,
{
    vstd::arithmetic::div_mod::lemma_fundamental_div_mod(s, 15);
    vstd::arithmetic::div_mod::lemma_mod_bound(s, 15);
    assert(s + 15 * a == 15 * (a + s / 15) + s % 15);
    vstd::arithmetic::div_mod::lemma_div_multiples_vanish_fancy(a + s / 15, s % 15, 15);
}

/// Two in-bounds lattice positions sharing a cell are the same position.
proof fn lemma_lattice_injective(start: (i32, i32), q1: (i32, i32), q2: (i32, i32))
    requires
        start.0 >= 0,
        start.1 >= 0,
        on_lattice(start, q1),
        on_lattice(start, q2),
        0 <= q1.0 < 8192,
        0 <= q1.1 < 8192,
        0 <= q2.0 < 8192,
        0 <= q2.1 < 8192,
        cellix(q1) == cellix(q2),
    ensures
        q1 == q2,
{
    let (a1, b1) = choose|a: int, b: int|
        (q1.0 as int, q1.1 as int) == #[trigger] lat_pt(start, a, b);
    let (a2, b2) = choose|a: int, b: int|
        (q2.0 as int, q2.1 as int) == #[trigger] lat_pt(start, a, b);
    lemma_lattice_div(start.0 as int, a1);
    lemma_lattice_div(start.1 as int, b1);
    lemma_lattice_div(start.0 as int, a2);
    lemma_lattice_div(start.1 as int, b2);
    // the cell index splits into its row and column
    assert(0 <= (q1.0 as int) / 15 < 547 && 0 <= (q2.0 as int) / 15 < 547
        && 0 <= (q1.1 as int) / 15 && 0 <= (q2.1 as int) / 15) by (nonlinear_arith)
        requires
            0 <= q1.0 < 8192, 0 <= q2.0 < 8192, 0 <= q1.1, 0 <= q2.1;
    assert((q1.1 as int) / 15 == (q2.1 as int) / 15
        && (q1.0 as int) / 15 == (q2.0 as int) / 15) by (nonlinear_arith)
        requires
            ((q1.1 as int) / 15) * 547 + (q1.0 as int) / 15
                == ((q2.1 as int) / 15) * 547 + (q2.0 as int) / 15,
            0 <= (q1.0 as int) / 15 < 547,
            0 <= (q2.0 as int) / 15 < 547,
            0 <= (q1.1 as int) / 15,
            0 <= (q2.1 as int) / 15;
    assert(a1 == a2 && b1 == b2);
}

/// Index of the search-lattice cell holding the in-bounds pixel `(x, y)`.
/// Cells are fifteen pixels wide, so positions reachable from one start map
/// to distinct cells.
fn lattice_index(grid: &WalkGrid, x: i32, y: i32) -> (r: usize)
    requires
        grid.wf(),
        grid.in_bounds_px(x as int, y as int),
    ensures
        r < 547 * 547,
        r as int == cellix((x, y)),
{
    let cx: usize = (x as usize) / 15;
    let cy: usize = (y as usize) / 15;
    proof {
        assert(cx < 547 && cy < 547) by (nonlinear_arith)
            requires
                cx as int == (x as int) / 15,
                cy as int == (y as int) / 15,
                0 <= (x as int) < 8192,
                0 <= (y as int) < 8192,
                (x as int) < grid.width * 8,
                (y as int) < grid.height * 8,
                grid.width <= 1024,
                grid.height <= 1024;
        assert(cy * 547 + cx < 547int * 547int) by (nonlinear_arith)
            requires 0 <= cx < 547, 0 <= cy < 547;
    }
    cy * 547 + cx
}

/// A queue entry of the search: a waypoint sequence from `start` ending at
/// `pos`, valid in every respect but reaching the goal.  Kept opaque:
/// revealed where entries are built, popped or returned.
#[verifier::opaque]
pub open spec fn partial_path_ok(
    grid: &WalkGrid,
    start: (i32, i32),
    is_flier: bool,
    hostiles: Seq<(i32, i32)>,
    pos: (i32, i32),
    path: Seq<(i32, i32)>,
) -> bool {
    path.len() >= 1 && path[0] == start && path[path.len() - 1] == pos
    && grid.in_bounds_px(pos.0 as int, pos.1 as int)
    && (forall|i: int| 1 <= i < path.len() ==> is_step(
        path[i - 1].0 as int, path[i - 1].1 as int,
        #[trigger] path[i].0 as int, path[i].1 as int))
    && (forall|i: int| 1 <= i < path.len()
        ==> grid.in_bounds_px(#[trigger] path[i].0 as int, path[i].1 as int))
    && (forall|i: int| 1 <= i < path.len()
        ==> is_flier || grid.walkable_px(#[trigger] path[i].0 as int, path[i].1 as int))
    && (forall|i: int| 1 <= i < path.len() ==> clear_of_hostiles(#[trigger] path[i], hostiles))
}

/// Whether some queue entry stands at position `q`.
pub open spec fn in_queue(entries: Seq<((i32, i32), Vec<(i32, i32)>)>, q: (i32, i32)) -> bool {
    exists|i: int| 0 <= i < entries.len() && (#[trigger] entries[i]).0 == q
}

/// A fully expanded search node: it is not within the goal radius, and every
/// lawful neighbor (one fixed step away, on the map, walkable unless flying,
/// clear of the hostiles) has been reached.  Kept opaque: the search reveals
/// it only where a node's expansion is established or used.
#[verifier::opaque]
pub open spec fn node_expanded(
    grid: &WalkGrid,
    end: (i32, i32),
    is_flier: bool,
    hostiles: Seq<(i32, i32)>,
    reached: Set<(i32, i32)>,
    q: (i32, i32),
) -> bool {
    !near_goal(q.0 as int, q.1 as int, end.0 as int, end.1 as int)
    && forall|nx: i32, ny: i32|
        #[trigger] is_step(q.0 as int, q.1 as int, nx as int, ny as int)
        && grid.in_bounds_px(nx as int, ny as int)
        && (is_flier || grid.walkable_px(nx as int, ny as int))
        && clear_of_hostiles((nx, ny), hostiles)
        ==> reached.contains((nx, ny))
}

/// Every reached position sits on the start lattice, on the map, with its
/// cell marked.  Kept opaque: revealed only where positions join the
/// frontier or cells are read back.
#[verifier::opaque]
pub open spec fn reached_props(
    grid: &WalkGrid, start: (i32, i32), reached: Set<(i32, i32)>, visited: Seq<bool>,
) -> bool {
    forall|q: (i32, i32)| #[trigger] reached.contains(q)
        ==> on_lattice(start, q)
            && grid.in_bounds_px(q.0 as int, q.1 as int)
            && 0 <= cellix(q) < visited.len() && visited[cellix(q)]
}

/// Every marked cell is owned by a reached position mapping back to it.
/// Kept opaque alike.
#[verifier::opaque]
pub open spec fn backmap_ok(
    cellback: Map<int, (i32, i32)>, visited: Seq<bool>, reached: Set<(i32, i32)>,
) -> bool {
    forall|ix: int| 0 <= ix < visited.len() && #[trigger] visited[ix]
        ==> cellback.contains_key(ix) && reached.contains(cellback[ix])
            && cellix(cellback[ix]) == ix
}

/// The fixed expansion directions.
pub open spec fn dir_of(k: int) -> (int, int) {
    if k == 0 { (0int, -15int) }
    else if k == 1 { (15int, 0int) }
    else if k == 2 { (0int, 15int) }
    else if k == 3 { (-15int, 0int) }
    else if k == 4 { (15int, -15int) }
    else if k == 5 { (15int, 15int) }
    else if k == 6 { (-15int, 15int) }
    else { (-15int, -15int) }
}

/// Direction `k` from `q` is settled: if the neighbor is lawful, it has been
/// reached.
pub open spec fn neighbor_done(
    grid: &WalkGrid,
    is_flier: bool,
    hostiles: Seq<(i32, i32)>,
    reached: Set<(i32, i32)>,
    q: (i32, i32),
    k: int,
) -> bool {
    let nx = q.0 as int + dir_of(k).0;
    let ny = q.1 as int + dir_of(k).1;
    (grid.in_bounds_px(nx, ny)
        && (is_flier || grid.walkable_px(nx, ny))
        && clear_of_hostiles((nx as i32, ny as i32), hostiles))
        ==> reached.contains((nx as i32, ny as i32))
}

/// Every position of a valid path is reached once the search has expanded
/// every reached node: induction along the path through the closure.
proof fn lemma_path_reached(
    grid: &WalkGrid,
    start: (i32, i32),
    end: (i32, i32),
    is_flier: bool,
    hostiles: Seq<(i32, i32)>,
    reached: Set<(i32, i32)>,
    p: Seq<(i32, i32)>,
    i: int,
)
    requires
        reached.contains(start),
        forall|q: (i32, i32)| #[trigger] reached.contains(q)
            ==> node_expanded(grid, end, is_flier, hostiles, reached, q),
        valid_path(grid, p, start, end, is_flier, hostiles),
        0 <= i < p.len(),
    ensures
        reached.contains(p[i]),
    decreases i,
{
    if i > 0 {
        reveal(node_expanded);
        lemma_path_reached(grid, start, end, is_flier, hostiles, reached, p, i - 1);
        let q = p[i - 1];
        let n = p[i];
        assert(node_expanded(grid, end, is_flier, hostiles, reached, q));
        assert(is_step(q.0 as int, q.1 as int, n.0 as int, n.1 as int));
        assert(reached.contains((n.0, n.1)));
    }
}

/// Breadth-first search from `start` toward `end`.  `hostiles` rejects cells
/// within 200 pixels of any listed position (pass none for plain search).
///
/// Any returned sequence is a valid waypoint path; a start already within the
/// goal radius yields exactly the single-waypoint path; and nothing is
/// returned only when no valid path exists at all: the frontier was
/// exhausted.
#[verifier::rlimit(100)]
pub fn bfs_path(
    grid: &WalkGrid,
    start: (i32, i32),
    end: (i32, i32),
    is_flier: bool,
    hostiles: &Vec<(i32, i32)>,
) -> (r: Option<Vec<(i32, i32)>>)
    requires
        grid.wf(),
        grid.in_bounds_px(start.0 as int, start.1 as int),
    ensures
        r matches Some(p) ==> valid_path(grid, p@, start, end, is_flier, hostiles@),
        near_goal(start.0 as int, start.1 as int, end.0 as int, end.1 as int)
            ==> (r matches Some(p) && p@ =~= seq![start]),
        r is None ==> forall|p: Seq<(i32, i32)>|
            !valid_path(grid, p, start, end, is_flier, hostiles@),
{
    let near_start = crate::geom::distance_squared(start, end) <= 45 * 45;
    if near_start {
        let mut p: Vec<(i32, i32)> = Vec::new();
        p.push(start);
        proof {
            assert(p@ =~= seq![start]);
        }
        return Some(p);
    }

    let mut visited: Vec<bool> = Vec::new();
    let target_len: usize = 547 * 547;
    while visited.len() < target_len
        invariant
            target_len == 547 * 547,
            visited@.len() <= 547 * 547,
            forall|ix: int| 0 <= ix < visited@.len() ==> !visited@[ix],
        decreases target_len - visited.len(),
    {
        visited.push(false);
    }

    let mut queue: VecDeque<((i32, i32), Vec<(i32, i32)>)> = VecDeque::new();
    let mut first: Vec<(i32, i32)> = Vec::new();
    first.push(start);
    proof {
        assert(first@ =~= seq![start]);
    }
    let start_idx = lattice_index(grid, start.0, start.1);
    visited.set(start_idx, true);
    proof {
        assert(partial_path_ok(grid, start, is_flier, hostiles@, start, first@)) by {
            reveal(partial_path_ok);
        }
    }
    queue.push_back((start, first));

    // the positions ever enqueued, and which position owns each marked cell
    let ghost mut reached: Set<(i32, i32)> = Set::empty().insert(start);
    let ghost mut cellback: Map<int, (i32, i32)> = Map::empty().insert(
        start_idx as int, start);
    proof {
        assert((start.0 as int, start.1 as int) == lat_pt(start, 0, 0));
        assert(on_lattice(start, start));
        assert((queue@[0]).0 == start);
        assert(in_queue(queue@, start));
        assert(reached_props(grid, start, reached, visited@)) by {
            reveal(reached_props);
        }
        assert(backmap_ok(cellback, visited@, reached)) by {
            reveal(backmap_ok);
        }
        assert forall|q: (i32, i32)| #[trigger] reached.contains(q)
            && !in_queue(queue@, q)
            implies node_expanded(grid, end, is_flier, hostiles@, reached, q) by {
            assert(q == start);
            assert(in_queue(queue@, start));
        }
    }

    while queue.len() > 0
        invariant
            grid.wf(),
            grid.in_bounds_px(start.0 as int, start.1 as int),
            visited@.len() == 547 * 547,
            !near_goal(start.0 as int, start.1 as int, end.0 as int, end.1 as int),
            forall|qi: int| 0 <= qi < queue@.len() ==> partial_path_ok(
                grid, start, is_flier, hostiles@,
                (#[trigger] queue@[qi]).0, queue@[qi].1@),
            // the ghost search frontier
            reached.contains(start),
            forall|qi: int| 0 <= qi < queue@.len()
                ==> reached.contains((#[trigger] queue@[qi]).0),
            forall|qi: int, qj: int| 0 <= qi < qj < queue@.len()
                ==> (#[trigger] queue@[qi]).0 != (#[trigger] queue@[qj]).0,
            reached_props(grid, start, reached, visited@),
            backmap_ok(cellback, visited@, reached),
            forall|q: (i32, i32)| #[trigger] reached.contains(q)
                && !in_queue(queue@, q)
                ==> node_expanded(grid, end, is_flier, hostiles@, reached, q),
        decreases 2 * count_unvisited(visited@, 547int * 547int) + queue@.len(),
    {
        proof {
            lemma_count_unvisited_nonneg(visited@, 547int * 547int);
        }
        let ghost measure0 = 2 * count_unvisited(visited@, 547int * 547int) + queue@.len();
        let ghost queue_before = queue@;
        let popped = queue.pop_front().unwrap();
        let current = popped.0;
        let path = popped.1;
        proof {
            assert(partial_path_ok(grid, start, is_flier, hostiles@, current, path@));
            assert(reached.contains(current));
            assert forall|qi: int| 0 <= qi < queue@.len() implies partial_path_ok(
                grid, start, is_flier, hostiles@,
                (#[trigger] queue@[qi]).0, queue@[qi].1@)
                && reached.contains(queue@[qi].0) by {
                assert(queue@[qi] == queue_before[qi + 1]);
            }
            assert forall|qi: int, qj: int| 0 <= qi < qj < queue@.len()
                implies (#[trigger] queue@[qi]).0 != (#[trigger] queue@[qj]).0 by {
                assert(queue@[qi] == queue_before[qi + 1]);
                assert(queue@[qj] == queue_before[qj + 1]);
            }
            // the popped position is now in the queue at most zero times
            assert forall|qi: int| 0 <= qi < queue@.len()
                implies (#[trigger] queue@[qi]).0 != current by {
                assert(queue@[qi] == queue_before[qi + 1]);
                assert(queue_before[0].0 == current);
            }
            assert(grid.in_bounds_px(current.0 as int, current.1 as int)) by {
                reveal(partial_path_ok);
            }
            assert forall|q: (i32, i32)| #[trigger] reached.contains(q)
                && !in_queue(queue@, q) && q != current
                implies node_expanded(grid, end, is_flier, hostiles@, reached, q) by {
                assert(!in_queue(queue_before, q)) by {
                    if in_queue(queue_before, q) {
                        let qi = choose|qi: int| 0 <= qi < queue_before.len()
                            && (#[trigger] queue_before[qi]).0 == q;
                        if qi > 0 {
                            assert((queue@[qi - 1]).0 == q);
                        }
                    }
                }
            }
        }

        let close = crate::geom::distance_squared(current, end) <= 45 * 45;
        if close {
            proof {
                assert(valid_path(grid, path@, start, end, is_flier, hostiles@)) by {
                    reveal(partial_path_ok);
                }
            }
            return Some(path);
        }

        let mut d: usize = 0;
        while d < 8
            invariant
                grid.wf(),
                grid.in_bounds_px(start.0 as int, start.1 as int),
                visited@.len() == 547 * 547,
                d <= 8,
                2 * count_unvisited(visited@, 547int * 547int) + queue@.len()
                    <= measure0 - 1,
                count_unvisited(visited@, 547int * 547int) >= 0,
                partial_path_ok(grid, start, is_flier, hostiles@, current, path@),
                grid.in_bounds_px(current.0 as int, current.1 as int),
                !near_goal(current.0 as int, current.1 as int, end.0 as int, end.1 as int),
                forall|qi: int| 0 <= qi < queue@.len() ==> partial_path_ok(
                    grid, start, is_flier, hostiles@,
                    (#[trigger] queue@[qi]).0, queue@[qi].1@),
                // ghost frontier, as in the outer loop
                reached.contains(start),
                reached.contains(current),
                forall|qi: int| 0 <= qi < queue@.len()
                    ==> reached.contains((#[trigger] queue@[qi]).0),
                forall|qi: int, qj: int| 0 <= qi < qj < queue@.len()
                    ==> (#[trigger] queue@[qi]).0 != (#[trigger] queue@[qj]).0,
                forall|qi: int| 0 <= qi < queue@.len()
                    ==> (#[trigger] queue@[qi]).0 != current,
                reached_props(grid, start, reached, visited@),
                backmap_ok(cellback, visited@, reached),
                forall|q: (i32, i32)| #[trigger] reached.contains(q)
                    && !in_queue(queue@, q) && q != current
                    ==> node_expanded(grid, end, is_flier, hostiles@, reached, q),
                // directions settled so far for the popped node
                forall|k: int| 0 <= k < d ==> #[trigger] neighbor_done(
                    grid, is_flier, hostiles@, reached, current, k),
            decreases 8 - d,
        {
            let dir: (i32, i32) = match d {
                0 => (0, -15),
                1 => (15, 0),
                2 => (0, 15),
                3 => (-15, 0),
                4 => (15, -15),
                5 => (15, 15),
                6 => (-15, 15),
                _ => (-15, -15),
            };
            let ghost dk = d as int;
            d += 1;
            proof {
                assert(grid.width * 8 <= 8192 && grid.height * 8 <= 8192);
                assert((dir.0 as int, dir.1 as int) == dir_of(dk));
            }
            let neighbor: (i32, i32) = (current.0 + dir.0, current.1 + dir.1);

            let w8: i32 = (grid.width * 8) as i32;
            let h8: i32 = (grid.height * 8) as i32;
            if neighbor.0 < 0 || neighbor.0 >= w8 || neighbor.1 < 0 || neighbor.1 >= h8 {
                proof {
                    assert(neighbor_done(grid, is_flier, hostiles@, reached, current, dk));
                }
                continue;
            }

            if !is_flier && !grid.is_walkable_px(neighbor.0, neighbor.1) {
                proof {
                    assert(neighbor_done(grid, is_flier, hostiles@, reached, current, dk));
                }
                continue;
            }

            // the avoiding variant: skip cells close to any hostile
            let mut too_close = false;
            let mut hj: usize = 0;
            while hj < hostiles.len() && !too_close
                invariant
                    !too_close ==> forall|j: int| 0 <= j < hj ==> dist_sq(
                        neighbor.0 as int, neighbor.1 as int,
                        (#[trigger] hostiles@[j]).0 as int, hostiles@[j].1 as int)
                        >= 200 * 200,
                    too_close ==> exists|j: int| 0 <= j < hostiles@.len() && dist_sq(
                        neighbor.0 as int, neighbor.1 as int,
                        (#[trigger] hostiles@[j]).0 as int, hostiles@[j].1 as int)
                        < 200 * 200,
                    hj <= hostiles@.len(),
                decreases hostiles@.len() - hj,
            {
                let dsq = crate::geom::distance_squared(neighbor, hostiles[hj]);
                if dsq < 200 * 200 {
                    proof {
                        assert(dist_sq(neighbor.0 as int, neighbor.1 as int,
                            hostiles@[hj as int].0 as int,
                            hostiles@[hj as int].1 as int) < 200 * 200);
                    }
                    too_close = true;
                }
                hj += 1;
            }
            if too_close {
                proof {
                    assert(!clear_of_hostiles(neighbor, hostiles@));
                    assert(neighbor_done(grid, is_flier, hostiles@, reached, current, dk));
                }
                continue;
            }

            let idx = lattice_index(grid, neighbor.0, neighbor.1);
            if !visited[idx] {
                proof {
                    lemma_count_unvisited_update(visited@, idx as int, 547int * 547int);
                }
                visited.set(idx, true);
                proof {
                    lemma_count_unvisited_nonneg(visited@, 547int * 547int);
                }
                let ghost visited_before = visited@;
                let mut new_path = copy_path(&path);
                new_path.push(neighbor);
                proof {
                    assert(clear_of_hostiles(neighbor, hostiles@));
                    assert(partial_path_ok(
                        grid, start, is_flier, hostiles@, neighbor, new_path@)) by {
                        reveal(partial_path_ok);
                    }
                    // the neighbor joins the lattice frontier
                    reveal(reached_props);
                    reveal(backmap_ok);
                    assert(reached.contains(current));
                    let (ca, cb) = choose|a: int, b: int|
                        (current.0 as int, current.1 as int)
                        == #[trigger] lat_pt(start, a, b);
                    let ghost na = ca + dir_of(dk).0 / 15;
                    let ghost nb = cb + dir_of(dk).1 / 15;
                    assert((neighbor.0 as int, neighbor.1 as int)
                        == lat_pt(start, na, nb));
                    assert(on_lattice(start, neighbor));
                    assert(!reached.contains(neighbor));
                    let ghost reached_before = reached;
                    reached = reached.insert(neighbor);
                    cellback = cellback.insert(idx as int, neighbor);
                    // the closure survives the growth of the frontier
                    assert forall|q: (i32, i32)| #[trigger] reached.contains(q)
                        && !in_queue(queue@.push((neighbor, new_path)), q)
                        && q != current
                        implies node_expanded(
                            grid, end, is_flier, hostiles@, reached, q) by {
                        reveal(node_expanded);
                        if q != neighbor {
                            assert(!in_queue(queue@, q)) by {
                                if in_queue(queue@, q) {
                                    let qi = choose|qi: int| 0 <= qi < queue@.len()
                                        && (#[trigger] queue@[qi]).0 == q;
                                    assert((queue@.push((neighbor, new_path))[qi]).0
                                        == q);
                                }
                            }
                            assert(node_expanded(grid, end, is_flier, hostiles@,
                                reached.remove(neighbor), q));
                            assert forall|nx: i32, ny: i32|
                                #[trigger] is_step(q.0 as int, q.1 as int,
                                    nx as int, ny as int)
                                && grid.in_bounds_px(nx as int, ny as int)
                                && (is_flier || grid.walkable_px(nx as int, ny as int))
                                && clear_of_hostiles((nx, ny), hostiles@)
                                implies reached.contains((nx, ny)) by {
                                assert(reached.remove(neighbor).contains((nx, ny))
                                    || (nx, ny) == neighbor);
                            }
                        } else {
                            assert((queue@.push((neighbor, new_path))[
                                queue@.len() as int]).0 == neighbor);
                        }
                    }
                    assert forall|k: int| 0 <= k < d implies #[trigger] neighbor_done(
                        grid, is_flier, hostiles@, reached, current, k) by {
                        let nx = current.0 as int + dir_of(k).0;
                        let ny = current.1 as int + dir_of(k).1;
                        if k == dk {
                            assert((nx as i32, ny as i32) == neighbor);
                            assert(reached.contains(neighbor));
                        } else {
                            assert(neighbor_done(
                                grid, is_flier, hostiles@, reached_before, current, k));
                            if grid.in_bounds_px(nx, ny)
                                && (is_flier || grid.walkable_px(nx, ny))
                                && clear_of_hostiles((nx as i32, ny as i32), hostiles@) {
                                assert(reached_before.contains((nx as i32, ny as i32)));
                                assert(reached.contains((nx as i32, ny as i32)));
                            }
                        }
                    }
                    assert(reached_props(grid, start, reached, visited@)) by {
                        reveal(reached_props);
                        assert forall|q: (i32, i32)| #[trigger] reached.contains(q)
                            implies on_lattice(start, q)
                                && grid.in_bounds_px(q.0 as int, q.1 as int)
                                && 0 <= cellix(q) < visited@.len()
                                && visited@[cellix(q)] by {
                            if q != neighbor {
                                assert(reached.remove(neighbor).contains(q) || true);
                                assert(visited_before[cellix(q)]);
                                assert(visited@ == visited_before.update(
                                    idx as int, true));
                            } else {
                                assert(cellix(neighbor) == idx as int);
                            }
                        }
                    }
                    assert(backmap_ok(cellback, visited@, reached)) by {
                        reveal(backmap_ok);
                        assert forall|ix2: int| 0 <= ix2 < visited@.len()
                            && #[trigger] visited@[ix2]
                            implies cellback.contains_key(ix2)
                                && reached.contains(cellback[ix2])
                                && cellix(cellback[ix2]) == ix2 by {
                            if ix2 != idx as int {
                                assert(visited_before[ix2]);
                            }
                        }
                    }
                }
                queue.push_back((neighbor, new_path));
            } else {
                proof {
                    // the cell is marked: its owner is this very neighbor,
                    // by lattice injectivity, so the neighbor was reached
                    reveal(reached_props);
                    reveal(backmap_ok);
                    assert(reached.contains(current));
                    let owner = cellback[idx as int];
                    let (ca, cb) = choose|a: int, b: int|
                        (current.0 as int, current.1 as int)
                        == #[trigger] lat_pt(start, a, b);
                    let ghost na = ca + dir_of(dk).0 / 15;
                    let ghost nb = cb + dir_of(dk).1 / 15;
                    assert((neighbor.0 as int, neighbor.1 as int)
                        == lat_pt(start, na, nb));
                    assert(on_lattice(start, neighbor));
                    assert(grid.width * 8 <= 8192 && grid.height * 8 <= 8192);
                    lemma_lattice_injective(start, owner, neighbor);
                    assert(reached.contains(neighbor));
                    assert(neighbor_done(grid, is_flier, hostiles@, reached, current, dk));
                }
            }
        }
        proof {
            // all eight directions settled: the popped node is expanded
            assert forall|q: (i32, i32)| #[trigger] reached.contains(q)
                && !in_queue(queue@, q)
                implies node_expanded(grid, end, is_flier, hostiles@, reached, q) by {
                reveal(node_expanded);
                if q == current {
                    assert forall|nx: i32, ny: i32|
                        #[trigger] is_step(current.0 as int, current.1 as int,
                            nx as int, ny as int)
                        && grid.in_bounds_px(nx as int, ny as int)
                        && (is_flier || grid.walkable_px(nx as int, ny as int))
                        && clear_of_hostiles((nx, ny), hostiles@)
                        implies reached.contains((nx, ny)) by {
                        let dx = nx as int - current.0 as int;
                        let dy = ny as int - current.1 as int;
                        let k: int = if dx == 0 && dy == -15 { 0 }
                            else if dx == 15 && dy == 0 { 1 }
                            else if dx == 0 && dy == 15 { 2 }
                            else if dx == -15 && dy == 0 { 3 }
                            else if dx == 15 && dy == -15 { 4 }
                            else if dx == 15 && dy == 15 { 5 }
                            else if dx == -15 && dy == 15 { 6 }
                            else { 7 };
                        assert(dir_of(k) == (dx, dy));
                        assert(neighbor_done(grid, is_flier, hostiles@, reached,
                            current, k));
                        assert((current.0 as int + dx) as i32 == nx
                            && (current.1 as int + dy) as i32 == ny);
                    }
                }
            }
        }
    }

    proof {
        // the frontier is exhausted and every reached node expanded: any
        // valid path would end reached yet outside the goal radius
        assert forall|p: Seq<(i32, i32)>| true
            implies !valid_path(grid, p, start, end, is_flier, hostiles@) by {
            if valid_path(grid, p, start, end, is_flier, hostiles@) {
                reveal(node_expanded);
                assert forall|q: (i32, i32)| #[trigger] reached.contains(q)
                    implies node_expanded(grid, end, is_flier, hostiles@, reached, q) by {
                    assert(!in_queue(queue@, q)) by {
                        if in_queue(queue@, q) {
                            let qi = choose|qi: int| 0 <= qi < queue@.len()
                                && (#[trigger] queue@[qi]).0 == q;
                        }
                    }
                }
                lemma_path_reached(grid, start, end, is_flier, hostiles@, reached, p,
                    p.len() - 1);
                assert(node_expanded(grid, end, is_flier, hostiles@, reached,
                    p[p.len() - 1]));
                assert(!near_goal(p[p.len() - 1].0 as int, p[p.len() - 1].1 as int,
                    end.0 as int, end.1 as int));
            }
        }
    }
    None
}

/// Plain path search: eight-directional fixed-step waypoints from `start`
/// into the goal radius of `end`, walkable throughout unless `is_flier`.
pub fn get_path_between_points(
    grid: &WalkGrid,
    start: (i32, i32),
    end: (i32, i32),
    is_flier: Option<bool>,
) -> (r: Option<Vec<(i32, i32)>>)
    requires
        grid.wf(),
        grid.in_bounds_px(start.0 as int, start.1 as int),
    ensures
        r matches Some(p) ==> valid_path(
            grid, p@, start, end, is_flier == Some(true), Seq::<(i32, i32)>::empty()),
        near_goal(start.0 as int, start.1 as int, end.0 as int, end.1 as int)
            ==> (r matches Some(p) && p@ =~= seq![start]),
        r is None ==> ({
            let fl = is_flier == Some(true);
            forall|p: Seq<(i32, i32)>| !(#[trigger] valid_path(
                grid, p, start, end, fl, Seq::<(i32, i32)>::empty()))
        }),
{
    let flier = match is_flier {
        Some(f) => f,
        None => false,
    };
    let no_hostiles: Vec<(i32, i32)> = Vec::new();
    let r = bfs_path(grid, start, end, flier, &no_hostiles);
    proof {
        assert(no_hostiles@ =~= Seq::<(i32, i32)>::empty());
    }
    r
}

/// Path search that also keeps every waypoint after the first at least 200
/// pixels from every listed hostile position.
pub fn get_path_avoiding_enemies(
    grid: &WalkGrid,
    start: (i32, i32),
    end: (i32, i32),
    is_flier: bool,
    hostiles: &Vec<(i32, i32)>,
) -> (r: Option<Vec<(i32, i32)>>)
    requires
        grid.wf(),
        grid.in_bounds_px(start.0 as int, start.1 as int),
    ensures
        r matches Some(p) ==> valid_path(grid, p@, start, end, is_flier, hostiles@),
        near_goal(start.0 as int, start.1 as int, end.0 as int, end.1 as int)
            ==> (r matches Some(p) && p@ =~= seq![start]),
        r is None ==> forall|p: Seq<(i32, i32)>| !(#[trigger] valid_path(
            grid, p, start, end, is_flier, hostiles@)),
{
    bfs_path(grid, start, end, is_flier, hostiles)
}

} // verus!
