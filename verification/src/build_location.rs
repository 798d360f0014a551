//! Build-tile selection for new structures.
//!
//! Candidates in a fixed window around the search center are scored by their
//! distance to existing resource depots (four to twelve tiles is favored) and
//! heavily penalized for standing on a depot-to-resource line (point-to-
//! segment projection with a tolerance), since such placement blocks
//! harvesting paths.  Gas extractors are instead keyed on geysers near
//! existing depots.

use vstd::prelude::*;
use crate::geom::{dist_sq, point_near_segment, coord_ok};
use crate::units::ResourceNode;

verus! {

/// Buildability snapshot of a rectangular tile window, row-major, with its
/// origin in build-tile coordinates.
pub struct BuildWindow {
    pub origin: (i32, i32),
    pub width: usize,
    pub height: usize,
    pub buildable: Vec<bool>,
}

impl BuildWindow {
    pub open spec fn wf(&self) -> bool {
        self.buildable@.len() == self.width * self.height
        && self.width <= 256 && self.height <= 256
        && 0 <= self.origin.0 <= 256 && 0 <= self.origin.1 <= 256
    }

    /// Buildability of tile `(tx, ty)`; tiles outside the window are not
    /// buildable.
    pub open spec fn buildable_at(&self, tx: int, ty: int) -> bool {
        self.origin.0 <= tx < self.origin.0 + self.width
        && self.origin.1 <= ty < self.origin.1 + self.height
        && self.buildable@[
            (ty - self.origin.1) * (self.width as int) + (tx - self.origin.0)]
    }

    pub fn new(origin: (i32, i32), width: usize, height: usize, buildable: Vec<bool>)
        -> (r: BuildWindow)
        requires
            buildable@.len() == width * height,
            width <= 256,
            height <= 256,
            0 <= origin.0 <= 256,
            0 <= origin.1 <= 256,
        ensures
            r.wf(),
            r.origin == origin,
            r.width == width,
            r.height == height,
            r.buildable@ == buildable@,
    {
        BuildWindow { origin, width, height, buildable }
    }

    /// Reads the window, deciding `buildable_at` exactly.
    pub fn is_buildable_at(&self, tx: i32, ty: i32) -> (r: bool)
        requires
            self.wf(),
        ensures
            r == self.buildable_at(tx as int, ty as int),
    {
        if tx < self.origin.0 || ty < self.origin.1 {
            return false;
        }
        let ox: usize = (tx - self.origin.0) as usize;
        let oy: usize = (ty - self.origin.1) as usize;
        if ox >= self.width || oy >= self.height {
            return false;
        }
        proof {
            assert(oy * self.width + ox < self.width * self.height
                && self.width * self.height <= 0x1_0000) by (nonlinear_arith)
                requires
                    0 <= (ox as int) < self.width as int,
                    0 <= (oy as int) < self.height as int,
                    self.width <= 256,
                    self.height <= 256;
        }
        self.buildable[oy * self.width + ox]
    }
}

/// Pixel center of a build tile.
pub open spec fn tile_center_px(t: (i32, i32)) -> (int, int) {
    (t.0 * 32 + 16, t.1 * 32 + 16)
}

/// Penalty a single depot-to-resource pair contributes when the candidate
/// stands on its line within `tol` pixels.
pub open spec fn line_penalty(
    c: (int, int), depot: (i32, i32), res: (i32, i32), tol: int, amount: int,
) -> int {
    if point_near_segment(c.0, c.1, depot.0 as int, depot.1 as int,
        res.0 as int, res.1 as int, tol) {
        amount
    } else {
        0
    }
}

/// Sum of line penalties of one depot against the first `i` resources.
pub open spec fn resources_line_penalty(
    c: (int, int), depot: (i32, i32), rs: Seq<ResourceNode>, tol: int, amount: int, i: int,
) -> int
    decreases i,
{
    if i <= 0 {
        0
    } else {
        resources_line_penalty(c, depot, rs, tol, amount, i - 1)
            + line_penalty(c, depot, rs[i - 1].pos, tol, amount)
    }
}

/// Score a depot contributes: mineral-line blocking at three tiles tolerance,
/// plus the distance band (four to twelve tiles is good).
pub open spec fn depot_score(
    c: (int, int), depot: (i32, i32), minerals: Seq<ResourceNode>,
    geysers: Seq<ResourceNode>,
) -> int {
    let d2 = dist_sq(c.0, c.1, depot.0 as int, depot.1 as int);
    let band: int = if d2 < 128 * 128 {
        -500
    } else if d2 > 384 * 384 {
        -300
    } else {
        100
    };
    resources_line_penalty(c, depot, minerals, 96, -10_000, minerals.len() as int)
        + resources_line_penalty(c, depot, geysers, 96, -10_000, geysers.len() as int)
        + band
}

/// Total over the first `i` depots of the depot score plus the wider
/// harvesting-path penalty at four tiles tolerance.
pub open spec fn location_score(
    c: (int, int), depots: Seq<(i32, i32)>, minerals: Seq<ResourceNode>,
    geysers: Seq<ResourceNode>, i: int,
) -> int
    decreases i,
{
    if i <= 0 {
        0
    } else {
        location_score(c, depots, minerals, geysers, i - 1)
            + depot_score(c, depots[i - 1], minerals, geysers)
            + resources_line_penalty(c, depots[i - 1], minerals, 128, -1000,
                minerals.len() as int)
            + resources_line_penalty(c, depots[i - 1], geysers, 128, -1000,
                geysers.len() as int)
    }
}

/// The full score of a candidate tile.
pub open spec fn spec_score_build_location(
    tile: (i32, i32), depots: Seq<(i32, i32)>, minerals: Seq<ResourceNode>,
    geysers: Seq<ResourceNode>,
) -> int {
    location_score(tile_center_px(tile), depots, minerals, geysers, depots.len() as int)
}

/// Bounds every partial resource penalty sum.
proof fn lemma_res_penalty_bounds(
    c: (int, int), depot: (i32, i32), rs: Seq<ResourceNode>, tol: int, amount: int, i: int,
)
    requires
        0 <= i <= rs.len(),
        -10_000 <= amount <= 0,
    ensures
        i * (-10_000) <= resources_line_penalty(c, depot, rs, tol, amount, i) <= 0,
    decreases i,
{
    if i > 0 {
        lemma_res_penalty_bounds(c, depot, rs, tol, amount, i - 1);
    }
}

/// Bounds every partial location score.
proof fn lemma_location_score_bounds(
    c: (int, int), depots: Seq<(i32, i32)>, minerals: Seq<ResourceNode>,
    geysers: Seq<ResourceNode>, i: int,
)
    requires
        0 <= i <= depots.len(),
        minerals.len() <= 100_000,
        geysers.len() <= 100_000,
    ensures
        i * (-4_000_000_500) <= location_score(c, depots, minerals, geysers, i)
            <= i * 100,
    decreases i,
{
    if i > 0 {
        lemma_location_score_bounds(c, depots, minerals, geysers, i - 1);
        lemma_res_penalty_bounds(c, depots[i - 1], minerals, 96, -10_000,
            minerals.len() as int);
        lemma_res_penalty_bounds(c, depots[i - 1], geysers, 96, -10_000,
            geysers.len() as int);
        lemma_res_penalty_bounds(c, depots[i - 1], minerals, 128, -1000,
            minerals.len() as int);
        lemma_res_penalty_bounds(c, depots[i - 1], geysers, 128, -1000,
            geysers.len() as int);
        assert((i - 1) * (-4_000_000_500) + (-4_000_000_500)
            == i * (-4_000_000_500) && (i - 1) * 100 + 100 == i * 100) by (nonlinear_arith);
    }
}

/// Sums one depot's line penalties against the resources, exactly.
fn resources_line_penalty_exec(
    c: (i32, i32), depot: (i32, i32), rs: &Vec<ResourceNode>, tol: i32, amount: i64,
) -> (r: i64)
    requires
        coord_ok((c.0, c.1)),
        coord_ok(depot),
        forall|j: int| 0 <= j < rs@.len() ==> coord_ok((#[trigger] rs@[j]).pos),
        0 <= tol < 0x10000,
        -10_000 <= amount <= 0,
        rs@.len() <= 100_000,
    ensures
        r == resources_line_penalty(
            (c.0 as int, c.1 as int), depot, rs@, tol as int, amount as int,
            rs@.len() as int),
{
    let n = rs.len();
    let mut acc: i64 = 0;
    let mut i: usize = 0;
    while i < n
        invariant
            n == rs@.len(),
            i <= n,
            coord_ok((c.0, c.1)),
            coord_ok(depot),
            forall|j: int| 0 <= j < rs@.len() ==> coord_ok((#[trigger] rs@[j]).pos),
            0 <= tol < 0x10000,
            -10_000 <= amount <= 0,
            n <= 100_000,
            acc == resources_line_penalty(
                (c.0 as int, c.1 as int), depot, rs@, tol as int, amount as int, i as int),
        decreases n - i,
    {
        proof {
            lemma_res_penalty_bounds((c.0 as int, c.1 as int), depot, rs@,
                tol as int, amount as int, i as int);
            assert((i as int) * (-10_000) >= -1_000_000_000) by (nonlinear_arith)
                requires 0 <= (i as int) <= 100_000;
        }
        let res = rs[i];
        if crate::geom::is_point_between(
            depot.0, depot.1, res.pos.0, res.pos.1, c.0, c.1, tol) {
            acc += amount;
        }
        i += 1;
    }
    acc
}

/// Scores a candidate tile, exactly per `spec_score_build_location`.
pub fn score_build_location(
    tile: (i32, i32),
    depots: &Vec<(i32, i32)>,
    minerals: &Vec<ResourceNode>,
    geysers: &Vec<ResourceNode>,
) -> (r: i128)
    requires
        0 <= tile.0 <= 600,
        0 <= tile.1 <= 600,
        forall|j: int| 0 <= j < depots@.len() ==> coord_ok(#[trigger] depots@[j]),
        forall|j: int| 0 <= j < minerals@.len() ==> coord_ok((#[trigger] minerals@[j]).pos),
        forall|j: int| 0 <= j < geysers@.len() ==> coord_ok((#[trigger] geysers@[j]).pos),
        depots@.len() <= 100_000,
        minerals@.len() <= 100_000,
        geysers@.len() <= 100_000,
    ensures
        r == spec_score_build_location(tile, depots@, minerals@, geysers@),
{
    let c: (i32, i32) = (tile.0 * 32 + 16, tile.1 * 32 + 16);
    proof {
        assert((c.0 as int, c.1 as int) == tile_center_px(tile));
    }
    let n = depots.len();
    let mut acc: i128 = 0;
    let mut i: usize = 0;
    while i < n
        invariant
            n == depots@.len(),
            i <= n,
            coord_ok(c),
            (c.0 as int, c.1 as int) == tile_center_px(tile),
            forall|j: int| 0 <= j < depots@.len() ==> coord_ok(#[trigger] depots@[j]),
            forall|j: int| 0 <= j < minerals@.len()
                ==> coord_ok((#[trigger] minerals@[j]).pos),
            forall|j: int| 0 <= j < geysers@.len()
                ==> coord_ok((#[trigger] geysers@[j]).pos),
            n <= 100_000,
            minerals@.len() <= 100_000,
            geysers@.len() <= 100_000,
            acc == location_score((c.0 as int, c.1 as int), depots@, minerals@,
                geysers@, i as int),
        decreases n - i,
    {
        proof {
            lemma_location_score_bounds((c.0 as int, c.1 as int), depots@, minerals@,
                geysers@, i as int);
            assert((i as int) * (-4_000_000_500) >= -0x8000_0000_0000_0000
                && (i as int) * 100 <= 0x8000_0000_0000_0000) by (nonlinear_arith)
                requires 0 <= (i as int) <= 100_000;
        }
        let depot = depots[i];
        let d2 = crate::geom::distance_squared(c, depot);
        let band: i64 = if d2 < 128 * 128 {
            -500
        } else if d2 > 384 * 384 {
            -300
        } else {
            100
        };
        let block_m = resources_line_penalty_exec(c, depot, minerals, 96, -10_000);
        let block_g = resources_line_penalty_exec(c, depot, geysers, 96, -10_000);
        let path_m = resources_line_penalty_exec(c, depot, minerals, 128, -1000);
        let path_g = resources_line_penalty_exec(c, depot, geysers, 128, -1000);
        proof {
            lemma_res_penalty_bounds((c.0 as int, c.1 as int), depot, minerals@,
                96, -10_000, minerals@.len() as int);
            lemma_res_penalty_bounds((c.0 as int, c.1 as int), depot, geysers@,
                96, -10_000, geysers@.len() as int);
            lemma_res_penalty_bounds((c.0 as int, c.1 as int), depot, minerals@,
                128, -1000, minerals@.len() as int);
            lemma_res_penalty_bounds((c.0 as int, c.1 as int), depot, geysers@,
                128, -1000, geysers@.len() as int);
            assert((minerals@.len() as int) * (-10_000) >= -1_000_000_000
                && (geysers@.len() as int) * (-10_000) >= -1_000_000_000
                && (minerals@.len() as int) * (-1000) >= -1_000_000_000
                && (geysers@.len() as int) * (-1000) >= -1_000_000_000)
                by (nonlinear_arith)
                requires minerals@.len() <= 100_000, geysers@.len() <= 100_000;
        }
        acc = acc + (block_m as i128) + (block_g as i128) + (band as i128)
            + (path_m as i128) + (path_g as i128);
        i += 1;
    }
    acc
}

/// Searches the window for the buildable tile of maximal score; among equal
/// scores the one visited last wins.  Nothing is returned only when no tile
/// of the window is buildable.
pub fn get_buildable_location(
    window: &BuildWindow,
    depots: &Vec<(i32, i32)>,
    minerals: &Vec<ResourceNode>,
    geysers: &Vec<ResourceNode>,
) -> (r: Option<(i32, i32)>)
    requires
        window.wf(),
        forall|j: int| 0 <= j < depots@.len() ==> coord_ok(#[trigger] depots@[j]),
        forall|j: int| 0 <= j < minerals@.len() ==> coord_ok((#[trigger] minerals@[j]).pos),
        forall|j: int| 0 <= j < geysers@.len() ==> coord_ok((#[trigger] geysers@[j]).pos),
        depots@.len() <= 100_000,
        minerals@.len() <= 100_000,
        geysers@.len() <= 100_000,
    ensures
        r matches Some(t) ==> window.buildable_at(t.0 as int, t.1 as int)
            && forall|tx: int, ty: int| window.buildable_at(tx, ty)
                ==> spec_score_build_location((tx as i32, ty as i32), depots@,
                    minerals@, geysers@)
                    <= spec_score_build_location(t, depots@, minerals@, geysers@),
        r is None ==> forall|tx: int, ty: int| !window.buildable_at(tx, ty),
{
    let mut best: Option<(i32, i32)> = None;
    let mut best_score: i128 = 0;
    let mut oy: usize = 0;
    while oy < window.height
        invariant
            window.wf(),
            oy <= window.height,
            forall|j: int| 0 <= j < depots@.len() ==> coord_ok(#[trigger] depots@[j]),
            forall|j: int| 0 <= j < minerals@.len()
                ==> coord_ok((#[trigger] minerals@[j]).pos),
            forall|j: int| 0 <= j < geysers@.len()
                ==> coord_ok((#[trigger] geysers@[j]).pos),
            depots@.len() <= 100_000,
            minerals@.len() <= 100_000,
            geysers@.len() <= 100_000,
            best matches Some(t) ==> window.buildable_at(t.0 as int, t.1 as int)
                && best_score == spec_score_build_location(t, depots@, minerals@, geysers@),
            best matches Some(t) ==> forall|tx: int, ty: int|
                window.buildable_at(tx, ty)
                && ty < window.origin.1 + oy
                ==> spec_score_build_location((tx as i32, ty as i32), depots@,
                    minerals@, geysers@) <= best_score,
            best is None ==> forall|tx: int, ty: int|
                !(window.buildable_at(tx, ty) && ty < window.origin.1 + oy),
        decreases window.height - oy,
    {
        let ty: i32 = window.origin.1 + oy as i32;
        let mut ox: usize = 0;
        while ox < window.width
            invariant
                window.wf(),
                oy < window.height,
                ox <= window.width,
                ty == window.origin.1 + oy as i32,
                forall|j: int| 0 <= j < depots@.len() ==> coord_ok(#[trigger] depots@[j]),
                forall|j: int| 0 <= j < minerals@.len()
                    ==> coord_ok((#[trigger] minerals@[j]).pos),
                forall|j: int| 0 <= j < geysers@.len()
                    ==> coord_ok((#[trigger] geysers@[j]).pos),
                depots@.len() <= 100_000,
                minerals@.len() <= 100_000,
                geysers@.len() <= 100_000,
                best matches Some(t) ==> window.buildable_at(t.0 as int, t.1 as int)
                    && best_score == spec_score_build_location(
                        t, depots@, minerals@, geysers@),
                best matches Some(t) ==> forall|tx: int, tyy: int|
                    window.buildable_at(tx, tyy)
                    && (tyy < ty as int || (tyy == ty as int
                        && tx < window.origin.0 + ox))
                    ==> spec_score_build_location((tx as i32, tyy as i32), depots@,
                        minerals@, geysers@) <= best_score,
                best is None ==> forall|tx: int, tyy: int|
                    !(window.buildable_at(tx, tyy)
                        && (tyy < ty as int || (tyy == ty as int
                            && tx < window.origin.0 + ox))),
            decreases window.width - ox,
        {
            let tx: i32 = window.origin.0 + ox as i32;
            if window.is_buildable_at(tx, ty) {
                let s = score_build_location((tx, ty), depots, minerals, geysers);
                let take = match best {
                    Some(_) => s >= best_score,
                    None => true,
                };
                if take {
                    best = Some((tx, ty));
                    best_score = s;
                }
            }
            ox += 1;
            proof {
                assert forall|txx: int, tyy: int|
                    window.buildable_at(txx, tyy)
                    && (tyy < ty as int || (tyy == ty as int
                        && txx < window.origin.0 + ox))
                    implies (best matches Some(t) && spec_score_build_location(
                        (txx as i32, tyy as i32), depots@, minerals@, geysers@)
                        <= best_score) by {
                    if tyy == ty as int && txx == tx as int {
                        assert((txx as i32, tyy as i32) == (tx, ty));
                    }
                }
            }
        }
        oy += 1;
    }
    proof {
        match best {
            Some(t) => {
                assert forall|tx: int, ty: int| window.buildable_at(tx, ty)
                    implies spec_score_build_location((tx as i32, ty as i32), depots@,
                        minerals@, geysers@) <= best_score by {
                    assert(ty < window.origin.1 + window.height);
                }
            },
            None => {
                assert forall|tx: int, ty: int| #[trigger] window.buildable_at(tx, ty)
                    implies false by {
                    assert(ty < window.origin.1 + window.height);
                }
            },
        }
    }
    best
}

/// Whether the geyser stands within twelve build tiles of the designated
/// base, or of some depot when no base is designated.
pub open spec fn geyser_near(
    g: ResourceNode, depots: Seq<(i32, i32)>, target_base_px: Option<(i32, i32)>,
) -> bool {
    match target_base_px {
        Some(b) => dist_sq(g.pos.0 as int, g.pos.1 as int, b.0 as int, b.1 as int)
            <= 384 * 384,
        None => exists|d: int| 0 <= d < depots.len()
            && dist_sq(g.pos.0 as int, g.pos.1 as int,
                (#[trigger] depots[d]).0 as int, depots[d].1 as int) <= 384 * 384,
    }
}

/// The build tile holding the geyser.
pub open spec fn geyser_tile(g: ResourceNode) -> (int, int) {
    ((g.pos.0 as int) / 32, (g.pos.1 as int) / 32)
}

/// Picks the first geyser near a depot (or the designated base) on which the
/// extractor can be placed: the returned tile is such a geyser's tile with
/// the window buildable there, and nothing is returned exactly when no listed
/// geyser is both near and buildable.
pub fn find_extractor_location(
    window: &BuildWindow,
    geysers: &Vec<ResourceNode>,
    depots: &Vec<(i32, i32)>,
    target_base_px: Option<(i32, i32)>,
) -> (r: Option<(i32, i32)>)
    requires
        window.wf(),
        forall|j: int| 0 <= j < geysers@.len()
            ==> (#[trigger] geysers@[j]).pos.0 >= 0 && geysers@[j].pos.1 >= 0,
    ensures
        r matches Some(t) ==> window.buildable_at(t.0 as int, t.1 as int)
            && exists|j: int| 0 <= j < geysers@.len()
                && geyser_near(#[trigger] geysers@[j], depots@, target_base_px)
                && t.0 as int == (geysers@[j].pos.0 as int) / 32
                && t.1 as int == (geysers@[j].pos.1 as int) / 32,
        r is None ==> forall|j: int| 0 <= j < geysers@.len()
            ==> !(geyser_near(#[trigger] geysers@[j], depots@, target_base_px)
                && window.buildable_at(geyser_tile(geysers@[j]).0,
                    geyser_tile(geysers@[j]).1)),
{
    let n = geysers.len();
    let mut i: usize = 0;
    while i < n
        invariant
            window.wf(),
            n == geysers@.len(),
            i <= n,
            forall|j: int| 0 <= j < geysers@.len()
                ==> (#[trigger] geysers@[j]).pos.0 >= 0 && geysers@[j].pos.1 >= 0,
            forall|j: int| 0 <= j < i
                ==> !(geyser_near(#[trigger] geysers@[j], depots@, target_base_px)
                    && window.buildable_at(geyser_tile(geysers@[j]).0,
                        geyser_tile(geysers@[j]).1)),
        decreases n - i,
    {
        let g = geysers[i];
        let mut near = false;
        match target_base_px {
            Some(b) => {
                let d2 = crate::geom::distance_squared(g.pos, b);
                if d2 <= 384 * 384 {
                    near = true;
                }
            },
            None => {
                let mut di: usize = 0;
                while di < depots.len()
                    invariant
                        di <= depots@.len(),
                        target_base_px is None,
                        near ==> geyser_near(g, depots@, target_base_px),
                        !near ==> forall|d: int| 0 <= d < di
                            ==> dist_sq(g.pos.0 as int, g.pos.1 as int,
                                (#[trigger] depots@[d]).0 as int,
                                depots@[d].1 as int) > 384 * 384,
                    decreases depots@.len() - di,
                {
                    let d2 = crate::geom::distance_squared(g.pos, depots[di]);
                    if d2 <= 384 * 384 {
                        proof {
                            assert(dist_sq(g.pos.0 as int, g.pos.1 as int,
                                depots@[di as int].0 as int,
                                depots@[di as int].1 as int) <= 384 * 384);
                        }
                        near = true;
                    }
                    di += 1;
                }
            },
        }
        proof {
            assert(geysers@[i as int] == g);
            assert(near == geyser_near(g, depots@, target_base_px));
        }
        if near {
            let tile: (i32, i32) = (
                ((g.pos.0 as u32) / 32) as i32,
                ((g.pos.1 as u32) / 32) as i32,
            );
            proof {
                assert(tile.0 as int == (g.pos.0 as int) / 32
                    && tile.1 as int == (g.pos.1 as int) / 32);
            }
            if window.is_buildable_at(tile.0, tile.1) {
                return Some(tile);
            }
        }
        i += 1;
    }
    None
}

} // verus!
