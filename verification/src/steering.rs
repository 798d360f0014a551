//! Shared threat-avoidance steering.
//!
//! Given hostiles with attack capability within a detection radius scaled by
//! their weapon range, the steering derives a flee vector from the mean
//! threat position, adds a perpendicular arc component chosen to evade while
//! preserving progress toward the target, and blends flee, arc and target
//! pull under one of three weight profiles.  The candidate point is validated
//! against walkability, with a ring search outward on failure.  All
//! arithmetic is integral, so the move point is an exact function of the
//! inputs.

use vstd::prelude::*;
use crate::geom::{dist_sq, sqrt_floor, div_trunc, coord_ok};
use crate::pathfinder::WalkGrid;
use crate::units::EnemyUnit;

verus! {

/// Weight profile of the steering blend.  `backward` and `lateral` are pixel
/// magnitudes; `target_milli` is the target pull in thousandths.
#[derive(Clone, Copy, Debug, PartialEq, Eq, Structural)]
pub struct ThreatAvoidanceWeights {
    pub backward: i64,
    pub lateral: i64,
    pub target_milli: i64,
}

/// The three steering temperaments.
#[derive(Clone, Copy, Debug, PartialEq, Eq, Structural)]
pub enum ThreatAvoidanceMode {
    /// Pure retreat.
    Evasive,
    /// Mostly lateral with slight progress.
    Kiting,
    /// Lateral with stronger progress.
    Aggressive,
}

pub open spec fn spec_weights(m: ThreatAvoidanceMode) -> ThreatAvoidanceWeights {
    match m {
        ThreatAvoidanceMode::Evasive => ThreatAvoidanceWeights {
            backward: 90, lateral: 60, target_milli: 0 },
        ThreatAvoidanceMode::Kiting => ThreatAvoidanceWeights {
            backward: 30, lateral: 65, target_milli: 50 },
        ThreatAvoidanceMode::Aggressive => ThreatAvoidanceWeights {
            backward: 10, lateral: 60, target_milli: 10_000 },
    }
}

impl ThreatAvoidanceMode {
    pub fn weights(&self) -> (r: ThreatAvoidanceWeights)
        ensures
            r == spec_weights(*self),
    {
        match self {
            ThreatAvoidanceMode::Evasive => ThreatAvoidanceWeights {
                backward: 90, lateral: 60, target_milli: 0 },
            ThreatAvoidanceMode::Kiting => ThreatAvoidanceWeights {
                backward: 30, lateral: 65, target_milli: 50 },
            ThreatAvoidanceMode::Aggressive => ThreatAvoidanceWeights {
                backward: 10, lateral: 60, target_milli: 10_000 },
        }
    }
}

/// Direction from the origin to `(dx, dy)`, scaled to length 1000 and
/// truncated; zero for the zero vector.
pub open spec fn norm_milli(dx: int, dy: int) -> (int, int) {
    let l = sqrt_floor(dx * dx + dy * dy);
    if l > 0 {
        (div_trunc(dx * 1000, l), div_trunc(dy * 1000, l))
    } else {
        (0, 0)
    }
}

/// The unit's intended direction of travel, milli-normalized.
pub open spec fn spec_move_dir(u: (i32, i32), target: Option<(i32, i32)>) -> (int, int) {
    match target {
        Some(t) => norm_milli(t.0 - u.0, t.1 - u.1),
        None => (0, 0),
    }
}

/// Whether a threat matters: with no travel direction every threat does;
/// otherwise those roughly in front (dot above -0.5) or very close.
pub open spec fn threat_relevant(u: (i32, i32), md: (int, int), t: (i32, i32)) -> bool {
    if md == (0int, 0int) {
        true
    } else {
        let dx = t.0 - u.0;
        let dy = t.1 - u.1;
        let dist = sqrt_floor(dx * dx + dy * dy);
        if dist == 0 {
            true
        } else {
            div_trunc(dx * 1000, dist) * md.0 + div_trunc(dy * 1000, dist) * md.1
                > -500_000
            || dist < 50
        }
    }
}

/// Number of relevant threats among the first `i`.
pub open spec fn rel_count(
    u: (i32, i32), md: (int, int), ts: Seq<(i32, i32)>, i: int,
) -> int
    decreases i,
{
    if i <= 0 {
        0
    } else {
        rel_count(u, md, ts, i - 1)
            + if threat_relevant(u, md, ts[i - 1]) { 1int } else { 0int }
    }
}

/// Sum of x coordinates of the relevant threats among the first `i`.
pub open spec fn rel_sum_x(
    u: (i32, i32), md: (int, int), ts: Seq<(i32, i32)>, i: int,
) -> int
    decreases i,
{
    if i <= 0 {
        0
    } else {
        rel_sum_x(u, md, ts, i - 1)
            + if threat_relevant(u, md, ts[i - 1]) { ts[i - 1].0 as int } else { 0int }
    }
}

/// Sum of y coordinates of the relevant threats among the first `i`.
pub open spec fn rel_sum_y(
    u: (i32, i32), md: (int, int), ts: Seq<(i32, i32)>, i: int,
) -> int
    decreases i,
{
    if i <= 0 {
        0
    } else {
        rel_sum_y(u, md, ts, i - 1)
            + if threat_relevant(u, md, ts[i - 1]) { ts[i - 1].1 as int } else { 0int }
    }
}

/// Arc-side score of perpendicular `p`: how strongly it moves away from the
/// relevant threats, closer threats weighing more.
pub open spec fn perp_score(
    u: (i32, i32), md: (int, int), ts: Seq<(i32, i32)>, i: int, p: (int, int),
) -> int
    decreases i,
{
    if i <= 0 {
        0
    } else {
        let t = ts[i - 1];
        let dx = t.0 - u.0;
        let dy = t.1 - u.1;
        let dist = sqrt_floor(dx * dx + dy * dy);
        perp_score(u, md, ts, i - 1, p)
            + if threat_relevant(u, md, t) && dist > 0 {
                let nd = norm_milli(dx as int, dy as int);
                div_trunc(-(p.0 * nd.0 + p.1 * nd.1) * 1000, dist + 1)
            } else {
                0int
            }
    }
}

/// The chosen perpendicular: toward the target when one exists, else away
/// from the weighted mass of threats.
pub open spec fn spec_perp(
    u: (i32, i32),
    target: Option<(i32, i32)>,
    md: (int, int),
    ts: Seq<(i32, i32)>,
    navoid: (int, int),
) -> (int, int) {
    let left = (-navoid.1, navoid.0);
    let right = (navoid.1, -navoid.0);
    match target {
        Some(t) => {
            let tox = t.0 - u.0;
            let toy = t.1 - u.1;
            if left.0 * tox + left.1 * toy > right.0 * tox + right.1 * toy {
                left
            } else {
                right
            }
        },
        None => {
            if perp_score(u, md, ts, ts.len() as int, left)
                > perp_score(u, md, ts, ts.len() as int, right) {
                left
            } else {
                right
            }
        },
    }
}

/// The blended candidate move point, before walkability validation; nothing
/// when no threat is relevant.
pub open spec fn spec_candidate(
    u: (i32, i32),
    target: Option<(i32, i32)>,
    ts: Seq<(i32, i32)>,
    w: ThreatAvoidanceWeights,
) -> Option<(int, int)> {
    let md = spec_move_dir(u, target);
    let n = ts.len() as int;
    let cnt = rel_count(u, md, ts, n);
    if cnt == 0 {
        None
    } else {
        let avgx = div_trunc(rel_sum_x(u, md, ts, n), cnt);
        let avgy = div_trunc(rel_sum_y(u, md, ts, n), cnt);
        let ax = u.0 - avgx;
        let ay = u.1 - avgy;
        let nav = if sqrt_floor(ax * ax + ay * ay) > 0 {
            norm_milli(ax, ay)
        } else {
            (1000int, 0int)
        };
        let perp = spec_perp(u, target, md, ts, nav);
        let tpull = match target {
            Some(t) => (
                div_trunc((t.0 - u.0) * w.target_milli, 1000),
                div_trunc((t.1 - u.1) * w.target_milli, 1000),
            ),
            None => (0int, 0int),
        };
        Some((
            u.0 + div_trunc(nav.0 * w.backward, 1000) + div_trunc(perp.0 * w.lateral, 1000)
                + tpull.0,
            u.1 + div_trunc(nav.1 * w.backward, 1000) + div_trunc(perp.1 * w.lateral, 1000)
                + tpull.1,
        ))
    }
}

/// The ring-search probe `k` (eight directions per radius, radii one to
/// five, eight pixels per radius step) around the candidate.
pub open spec fn off_of_step(step: int) -> (int, int) {
    if step == 0 { (1000int, 0int) }
    else if step == 1 { (707int, 707int) }
    else if step == 2 { (0int, 1000int) }
    else if step == 3 { (-707int, 707int) }
    else if step == 4 { (-1000int, 0int) }
    else if step == 5 { (-707int, -707int) }
    else if step == 6 { (0int, -1000int) }
    else { (707int, -707int) }
}

pub open spec fn ring_probe(c: (int, int), k: int) -> (int, int) {
    let radius = k / 8 + 1;
    let step = k % 8;
    let d = radius * 8;
    let off = off_of_step(step);
    (c.0 + div_trunc(off.0 * d, 1000), c.1 + div_trunc(off.1 * d, 1000))
}

/// First walkable probe at or after `k`, if any.
pub open spec fn spec_ring_search(grid: &WalkGrid, c: (int, int), k: int) -> Option<(int, int)>
    decreases 40 - k,
{
    if k >= 40 {
        None
    } else {
        let p = ring_probe(c, k);
        if grid.walkable_px(p.0, p.1) {
            Some(p)
        } else {
            spec_ring_search(grid, c, k + 1)
        }
    }
}

/// The steering's final answer: the candidate if walkable, else the first
/// walkable ring probe, else nothing.
pub open spec fn spec_avoidance_move(
    grid: &WalkGrid,
    u: (i32, i32),
    target: Option<(i32, i32)>,
    ts: Seq<(i32, i32)>,
    w: ThreatAvoidanceWeights,
) -> Option<(int, int)> {
    match spec_candidate(u, target, ts, w) {
        None => None,
        Some(c) => {
            if grid.walkable_px(c.0, c.1) {
                Some(c)
            } else {
                spec_ring_search(grid, c, 0)
            }
        },
    }
}

/// Exact milli-normalization.
fn norm_milli_exec(dx: i64, dy: i64) -> (r: (i64, i64))
    requires
        -0x1_0000_0000 <= dx <= 0x1_0000_0000,
        -0x1_0000_0000 <= dy <= 0x1_0000_0000,
    ensures
        (r.0 as int, r.1 as int) == norm_milli(dx as int, dy as int),
        -1000 <= r.0 <= 1000,
        -1000 <= r.1 <= 1000,
{
    proof {
        assert(0 <= dx * dx <= 0x1_0000_0000_0000_0000
            && 0 <= dy * dy <= 0x1_0000_0000_0000_0000) by (nonlinear_arith)
            requires
                -0x1_0000_0000 <= dx <= 0x1_0000_0000,
                -0x1_0000_0000 <= dy <= 0x1_0000_0000;
    }
    let sq: u128 = ((dx as i128) * (dx as i128) + (dy as i128) * (dy as i128)) as u128;
    let l: u64 = crate::geom::isqrt(sq);
    if l == 0 {
        return (0, 0);
    }
    proof {
        crate::geom::lemma_sqrt_floor_bounds(sq as int);
        // the length bounds the coordinates: |d| <= l < |d| requires care;
        // sqrt(dx^2+dy^2) >= |dx| and >= |dy|
        assert((l as int) * (l as int) <= sq as int);
        assert((sq as int) < ((l as int) + 1) * ((l as int) + 1));
        assert(dx * dx <= (sq as i128) && dy * dy <= (sq as i128));
    }
    let nx = crate::geom::div_i128((dx as i128) * 1000, l as i128);
    let ny = crate::geom::div_i128((dy as i128) * 1000, l as i128);
    proof {
        lemma_norm_component_bound(dx as int, l as int, sq as int);
        lemma_norm_component_bound(dy as int, l as int, sq as int);
    }
    (nx as i64, ny as i64)
}

/// A coordinate's milli-normalized component lies in [-1000, 1000].
proof fn lemma_norm_component_bound(d: int, l: int, sq: int)
    requires
        l >= 1,
        d * d <= sq,
        l * l <= sq,
        sq < (l + 1) * (l + 1),
    ensures
        -1000 <= div_trunc(d * 1000, l) <= 1000,
{
    // |d| <= l, since d*d <= sq < (l+1)^2 implies |d| < l+1
    assert(-l <= d <= l) by (nonlinear_arith)
        requires d * d <= sq, sq < (l + 1) * (l + 1), l >= 1;
    if d >= 0 {
        assert(d * 1000 <= l * 1000) by (nonlinear_arith) requires d <= l, l >= 1;
        assert(div_trunc(d * 1000, l) <= 1000) by {
            vstd::arithmetic::div_mod::lemma_div_is_ordered(d * 1000, l * 1000, l);
            vstd::arithmetic::div_mod::lemma_div_multiples_vanish(1000, l);
        }
        assert(div_trunc(d * 1000, l) >= 0) by {
            vstd::arithmetic::div_mod::lemma_div_pos_is_pos(d * 1000, l);
        }
    } else {
        let e = -d;
        assert(e * 1000 <= l * 1000) by (nonlinear_arith) requires e <= l, l >= 1;
        assert((-(d * 1000)) == e * 1000);
        assert(div_trunc(d * 1000, l) == -((e * 1000) / l));
        assert((e * 1000) / l <= 1000) by {
            vstd::arithmetic::div_mod::lemma_div_is_ordered(e * 1000, l * 1000, l);
            vstd::arithmetic::div_mod::lemma_div_multiples_vanish(1000, l);
        }
        assert((e * 1000) / l >= 0) by {
            vstd::arithmetic::div_mod::lemma_div_pos_is_pos(e * 1000, l);
        }
    }
}

} // verus!

verus! {

/// A quotient is bounded by the bound of its dividend per unit of divisor.
pub proof fn lemma_div_trunc_bound(a: int, b: int, bound: int)
    requires
        b >= 1,
        bound >= 0,
        -(b * bound) <= a <= b * bound,
    ensures
        -bound <= div_trunc(a, b) <= bound,
{
    if a >= 0 {
        vstd::arithmetic::div_mod::lemma_div_is_ordered(a, b * bound, b);
        vstd::arithmetic::div_mod::lemma_div_multiples_vanish(bound, b);
        vstd::arithmetic::div_mod::lemma_div_pos_is_pos(a, b);
    } else {
        let e = -a;
        vstd::arithmetic::div_mod::lemma_div_is_ordered(e, b * bound, b);
        vstd::arithmetic::div_mod::lemma_div_multiples_vanish(bound, b);
        vstd::arithmetic::div_mod::lemma_div_pos_is_pos(e, b);
    }
}

/// Relevant-threat sums stay within the coordinate range times the count.
proof fn lemma_rel_sums_bounded(
    u: (i32, i32), md: (int, int), ts: Seq<(i32, i32)>, i: int,
)
    requires
        0 <= i <= ts.len(),
        forall|j: int| 0 <= j < ts.len() ==> coord_ok(#[trigger] ts[j]),
    ensures
        0 <= rel_count(u, md, ts, i) <= i,
        -(rel_count(u, md, ts, i) * 0x4000_0000) <= rel_sum_x(u, md, ts, i)
            <= rel_count(u, md, ts, i) * 0x4000_0000,
        -(rel_count(u, md, ts, i) * 0x4000_0000) <= rel_sum_y(u, md, ts, i)
            <= rel_count(u, md, ts, i) * 0x4000_0000,
    decreases i,
{
    if i > 0 {
        lemma_rel_sums_bounded(u, md, ts, i - 1);
    }
}

/// Decides `threat_relevant` exactly.
fn threat_relevant_exec(u: (i32, i32), md: (i64, i64), t: (i32, i32)) -> (r: bool)
    requires
        coord_ok(u),
        coord_ok(t),
        -1000 <= md.0 <= 1000,
        -1000 <= md.1 <= 1000,
    ensures
        r == threat_relevant(u, (md.0 as int, md.1 as int), t),
{
    if md.0 == 0 && md.1 == 0 {
        return true;
    }
    let dx: i64 = t.0 as i64 - u.0 as i64;
    let dy: i64 = t.1 as i64 - u.1 as i64;
    proof {
        assert(0 <= dx * dx <= 0x4000_0000_0000_0000
            && 0 <= dy * dy <= 0x4000_0000_0000_0000) by (nonlinear_arith)
            requires
                -0x8000_0000 <= dx <= 0x8000_0000,
                -0x8000_0000 <= dy <= 0x8000_0000;
    }
    let sq: u128 = ((dx as i128) * (dx as i128) + (dy as i128) * (dy as i128)) as u128;
    let dist: u64 = crate::geom::isqrt(sq);
    if dist == 0 {
        return true;
    }
    proof {
        crate::geom::lemma_sqrt_floor_bounds(sq as int);
        lemma_norm_component_bound(dx as int, dist as int, sq as int);
        lemma_norm_component_bound(dy as int, dist as int, sq as int);
    }
    let tdx = crate::geom::div_i128((dx as i128) * 1000, dist as i128);
    let tdy = crate::geom::div_i128((dy as i128) * 1000, dist as i128);
    proof {
        assert(-1_000_000 <= tdx * (md.0 as int) <= 1_000_000
            && -1_000_000 <= tdy * (md.1 as int) <= 1_000_000) by (nonlinear_arith)
            requires
                -1000 <= tdx <= 1000,
                -1000 <= tdy <= 1000,
                -1000 <= (md.0 as int) <= 1000,
                -1000 <= (md.1 as int) <= 1000;
    }
    let dot: i128 = tdx * (md.0 as i128) + tdy * (md.1 as i128);
    dot > -500_000 || dist < 50
}

/// Counts the relevant threats and sums their coordinates, exactly per
/// `rel_count`, `rel_sum_x` and `rel_sum_y`.
fn rel_aggregate(
    u: (i32, i32), md: (i64, i64), threats: &Vec<(i32, i32)>,
) -> (r: (usize, i128, i128))
    requires
        coord_ok(u),
        forall|j: int| 0 <= j < threats@.len() ==> coord_ok(#[trigger] threats@[j]),
        -1000 <= md.0 <= 1000,
        -1000 <= md.1 <= 1000,
    ensures
        r.0 == rel_count(u, (md.0 as int, md.1 as int), threats@, threats@.len() as int),
        r.1 == rel_sum_x(u, (md.0 as int, md.1 as int), threats@, threats@.len() as int),
        r.2 == rel_sum_y(u, (md.0 as int, md.1 as int), threats@, threats@.len() as int),
{
    let ghost mdi = (md.0 as int, md.1 as int);
    let n = threats.len();
    let mut cnt: usize = 0;
    let mut sx: i128 = 0;
    let mut sy: i128 = 0;
    let mut i: usize = 0;
    while i < n
        invariant
            n == threats@.len(),
            i <= n,
            coord_ok(u),
            forall|j: int| 0 <= j < threats@.len() ==> coord_ok(#[trigger] threats@[j]),
            -1000 <= md.0 <= 1000,
            -1000 <= md.1 <= 1000,
            mdi == (md.0 as int, md.1 as int),
            cnt == rel_count(u, mdi, threats@, i as int),
            sx == rel_sum_x(u, mdi, threats@, i as int),
            sy == rel_sum_y(u, mdi, threats@, i as int),
            cnt <= i,
            -(cnt * 0x4000_0000) <= sx <= cnt * 0x4000_0000,
            -(cnt * 0x4000_0000) <= sy <= cnt * 0x4000_0000,
        decreases n - i,
    {
        let t = threats[i];
        if threat_relevant_exec(u, md, t) {
            cnt += 1;
            sx += t.0 as i128;
            sy += t.1 as i128;
        }
        i += 1;
    }
    (cnt, sx, sy)
}

/// Scores both perpendicular arcs against the relevant threats, exactly per
/// `perp_score`.
fn perp_scores(
    u: (i32, i32),
    md: (i64, i64),
    threats: &Vec<(i32, i32)>,
    left: (i64, i64),
    right: (i64, i64),
) -> (r: (i128, i128))
    requires
        coord_ok(u),
        forall|j: int| 0 <= j < threats@.len() ==> coord_ok(#[trigger] threats@[j]),
        -1000 <= md.0 <= 1000,
        -1000 <= md.1 <= 1000,
        -1000 <= left.0 <= 1000,
        -1000 <= left.1 <= 1000,
        -1000 <= right.0 <= 1000,
        -1000 <= right.1 <= 1000,
    ensures
        r.0 == perp_score(u, (md.0 as int, md.1 as int), threats@,
            threats@.len() as int, (left.0 as int, left.1 as int)),
        r.1 == perp_score(u, (md.0 as int, md.1 as int), threats@,
            threats@.len() as int, (right.0 as int, right.1 as int)),
{
    let ghost mdi = (md.0 as int, md.1 as int);
    let ghost li = (left.0 as int, left.1 as int);
    let ghost ri = (right.0 as int, right.1 as int);
    let n = threats.len();
    let mut sl: i128 = 0;
    let mut sr: i128 = 0;
    let mut i: usize = 0;
    while i < n
        invariant
            n == threats@.len(),
            i <= n,
            coord_ok(u),
            forall|j: int| 0 <= j < threats@.len() ==> coord_ok(#[trigger] threats@[j]),
            -1000 <= md.0 <= 1000,
            -1000 <= md.1 <= 1000,
            -1000 <= left.0 <= 1000,
            -1000 <= left.1 <= 1000,
            -1000 <= right.0 <= 1000,
            -1000 <= right.1 <= 1000,
            mdi == (md.0 as int, md.1 as int),
            li == (left.0 as int, left.1 as int),
            ri == (right.0 as int, right.1 as int),
            sl == perp_score(u, mdi, threats@, i as int, li),
            sr == perp_score(u, mdi, threats@, i as int, ri),
            -2_000_000_000 * (i as int) <= sl <= 2_000_000_000 * (i as int),
            -2_000_000_000 * (i as int) <= sr <= 2_000_000_000 * (i as int),
        decreases n - i,
    {
        let t = threats[i];
        let relevant = threat_relevant_exec(u, md, t);
        let dx: i64 = t.0 as i64 - u.0 as i64;
        let dy: i64 = t.1 as i64 - u.1 as i64;
        proof {
            assert(0 <= dx * dx <= 0x4000_0000_0000_0000
                && 0 <= dy * dy <= 0x4000_0000_0000_0000) by (nonlinear_arith)
                requires
                    -0x8000_0000 <= dx <= 0x8000_0000,
                    -0x8000_0000 <= dy <= 0x8000_0000;
        }
        let sq: u128 = ((dx as i128) * (dx as i128) + (dy as i128) * (dy as i128)) as u128;
        let dist: u64 = crate::geom::isqrt(sq);
        if relevant && dist > 0 {
            let nd = norm_milli_exec(dx, dy);
            proof {
                assert(-1_000_000 <= (left.0 as int) * (nd.0 as int) <= 1_000_000
                    && -1_000_000 <= (left.1 as int) * (nd.1 as int) <= 1_000_000
                    && -1_000_000 <= (right.0 as int) * (nd.0 as int) <= 1_000_000
                    && -1_000_000 <= (right.1 as int) * (nd.1 as int) <= 1_000_000)
                    by (nonlinear_arith)
                    requires
                        -1000 <= (left.0 as int) <= 1000,
                        -1000 <= (left.1 as int) <= 1000,
                        -1000 <= (right.0 as int) <= 1000,
                        -1000 <= (right.1 as int) <= 1000,
                        -1000 <= (nd.0 as int) <= 1000,
                        -1000 <= (nd.1 as int) <= 1000;
            }
            let pdl: i128 = (left.0 as i128) * (nd.0 as i128)
                + (left.1 as i128) * (nd.1 as i128);
            let pdr: i128 = (right.0 as i128) * (nd.0 as i128)
                + (right.1 as i128) * (nd.1 as i128);
            let tl = crate::geom::div_i128(-(pdl) * 1000, dist as i128 + 1);
            let tr = crate::geom::div_i128(-(pdr) * 1000, dist as i128 + 1);
            proof {
                assert(-(dist as int + 1) * 2_000_000_000 <= -(pdl as int) * 1000
                    <= (dist as int + 1) * 2_000_000_000
                    && -(dist as int + 1) * 2_000_000_000 <= -(pdr as int) * 1000
                    <= (dist as int + 1) * 2_000_000_000) by (nonlinear_arith)
                    requires
                        -2_000_000 <= pdl as int <= 2_000_000,
                        -2_000_000 <= pdr as int <= 2_000_000,
                        dist as int >= 0;
                lemma_div_trunc_bound(-(pdl as int) * 1000, dist as int + 1,
                    2_000_000_000);
                lemma_div_trunc_bound(-(pdr as int) * 1000, dist as int + 1,
                    2_000_000_000);
                assert(-2_000_000_000 * ((i as int) + 1) <= sl + tl
                    <= 2_000_000_000 * ((i as int) + 1)
                    && -2_000_000_000 * ((i as int) + 1) <= sr + tr
                    <= 2_000_000_000 * ((i as int) + 1)) by (nonlinear_arith)
                    requires
                        -2_000_000_000 * (i as int) <= sl <= 2_000_000_000 * (i as int),
                        -2_000_000_000 * (i as int) <= sr <= 2_000_000_000 * (i as int),
                        -2_000_000_000 <= tl <= 2_000_000_000,
                        -2_000_000_000 <= tr <= 2_000_000_000,
                        i >= 0;
            }
            sl += tl;
            sr += tr;
        } else {
            proof {
                assert(-2_000_000_000 * ((i as int) + 1) <= sl
                    <= 2_000_000_000 * ((i as int) + 1)
                    && -2_000_000_000 * ((i as int) + 1) <= sr
                    <= 2_000_000_000 * ((i as int) + 1)) by (nonlinear_arith)
                    requires
                        -2_000_000_000 * (i as int) <= sl <= 2_000_000_000 * (i as int),
                        -2_000_000_000 * (i as int) <= sr <= 2_000_000_000 * (i as int),
                        i >= 0;
            }
        }
        i += 1;
    }
    (sl, sr)
}

} // verus!

verus! {

/// Walkability of an arbitrarily wide coordinate pair: anything beyond the
/// map raster is not walkable.
fn walkable_wide(grid: &WalkGrid, x: i128, y: i128) -> (r: bool)
    requires
        grid.wf(),
    ensures
        r == grid.walkable_px(x as int, y as int),
{
    if x < 0 || y < 0 || x >= 8192 || y >= 8192 {
        proof {
            assert(grid.width * 8 <= 8192 && grid.height * 8 <= 8192);
        }
        return false;
    }
    grid.is_walkable_px(x as i32, y as i32)
}

/// The ring search visits the probes in order; skipping an unwalkable prefix
/// leaves the answer unchanged.
proof fn lemma_ring_search_skip(grid: &WalkGrid, c: (int, int), k: int)
    requires
        0 <= k < 40,
        !grid.walkable_px(ring_probe(c, k).0, ring_probe(c, k).1),
    ensures
        spec_ring_search(grid, c, k) == spec_ring_search(grid, c, k + 1),
{
}

/// Steering blend: the exact move point for the given unit position, threat
/// positions, optional target and weight profile, walkability-validated
/// (P6's determinism is this exactness; its walkability is the first
/// postcondition).
pub fn calculate_threat_avoidance_move(
    grid: &WalkGrid,
    unit_pos: (i32, i32),
    threats: &Vec<(i32, i32)>,
    target: Option<(i32, i32)>,
    weights: ThreatAvoidanceWeights,
) -> (r: Option<(i32, i32)>)
    requires
        grid.wf(),
        coord_ok(unit_pos),
        forall|j: int| 0 <= j < threats@.len() ==> coord_ok(#[trigger] threats@[j]),
        target matches Some(t) ==> coord_ok(t),
        0 <= weights.backward <= 1000,
        0 <= weights.lateral <= 1000,
        0 <= weights.target_milli <= 100_000,
    ensures
        r matches Some(p) ==> grid.walkable_px(p.0 as int, p.1 as int),
        r matches Some(p) ==> spec_avoidance_move(grid, unit_pos, target, threats@, weights)
            == Some((p.0 as int, p.1 as int)),
        r is None ==> spec_avoidance_move(grid, unit_pos, target, threats@, weights)
            is None,
{
    let u = unit_pos;
    let md: (i64, i64) = match target {
        Some(t) => norm_milli_exec(t.0 as i64 - u.0 as i64, t.1 as i64 - u.1 as i64),
        None => (0, 0),
    };
    let ghost mdi = (md.0 as int, md.1 as int);
    proof {
        assert(mdi == spec_move_dir(u, target));
    }

    let (cnt, sx, sy) = rel_aggregate(u, md, threats);
    if cnt == 0 {
        return None;
    }

    proof {
        lemma_rel_sums_bounded(u, mdi, threats@, threats@.len() as int);
        assert(-(cnt as int) * 0x4000_0000 <= sx <= (cnt as int) * 0x4000_0000);
        lemma_div_trunc_bound(sx as int, cnt as int, 0x4000_0000);
        lemma_div_trunc_bound(sy as int, cnt as int, 0x4000_0000);
    }
    let avgx: i128 = crate::geom::div_i128(sx, cnt as i128);
    let avgy: i128 = crate::geom::div_i128(sy, cnt as i128);
    let ax: i64 = (u.0 as i128 - avgx) as i64;
    let ay: i64 = (u.1 as i128 - avgy) as i64;
    proof {
        assert(0 <= ax * ax <= 0x4000_0000_0000_0000
            && 0 <= ay * ay <= 0x4000_0000_0000_0000) by (nonlinear_arith)
            requires
                -0x8000_0000 <= ax <= 0x8000_0000,
                -0x8000_0000 <= ay <= 0x8000_0000;
    }
    let avoid_sq: u128 = ((ax as i128) * (ax as i128) + (ay as i128) * (ay as i128)) as u128;
    let avoid_len: u64 = crate::geom::isqrt(avoid_sq);
    let nav: (i64, i64) = if avoid_len > 0 {
        norm_milli_exec(ax, ay)
    } else {
        (1000, 0)
    };

    let left: (i64, i64) = (-nav.1, nav.0);
    let right: (i64, i64) = (nav.1, -nav.0);
    let perp: (i64, i64) = match target {
        Some(t) => {
            let tox: i128 = t.0 as i128 - u.0 as i128;
            let toy: i128 = t.1 as i128 - u.1 as i128;
            proof {
                assert(-0x8_0000_0000_0000 <= (left.0 as int) * (tox as int)
                    <= 0x8_0000_0000_0000
                    && -0x8_0000_0000_0000 <= (left.1 as int) * (toy as int)
                        <= 0x8_0000_0000_0000
                    && -0x8_0000_0000_0000 <= (right.0 as int) * (tox as int)
                        <= 0x8_0000_0000_0000
                    && -0x8_0000_0000_0000 <= (right.1 as int) * (toy as int)
                        <= 0x8_0000_0000_0000) by (nonlinear_arith)
                    requires
                        -1000 <= (left.0 as int) <= 1000,
                        -1000 <= (left.1 as int) <= 1000,
                        -1000 <= (right.0 as int) <= 1000,
                        -1000 <= (right.1 as int) <= 1000,
                        -0x1_0000_0000 <= tox <= 0x1_0000_0000,
                        -0x1_0000_0000 <= toy <= 0x1_0000_0000;
            }
            let dl: i128 = (left.0 as i128) * tox + (left.1 as i128) * toy;
            let dr: i128 = (right.0 as i128) * tox + (right.1 as i128) * toy;
            if dl > dr { left } else { right }
        },
        None => {
            let (sl, sr) = perp_scores(u, md, threats, left, right);
            if sl > sr { left } else { right }
        },
    };

    let tpull: (i128, i128) = match target {
        Some(t) => {
            let tdx: i128 = t.0 as i128 - u.0 as i128;
            let tdy: i128 = t.1 as i128 - u.1 as i128;
            proof {
                assert(-0x1_0000_0000 * 100_000 <= tdx * (weights.target_milli as int)
                    <= 0x1_0000_0000 * 100_000
                    && -0x1_0000_0000 * 100_000 <= tdy * (weights.target_milli as int)
                        <= 0x1_0000_0000 * 100_000) by (nonlinear_arith)
                    requires
                        -0x1_0000_0000 <= tdx <= 0x1_0000_0000,
                        -0x1_0000_0000 <= tdy <= 0x1_0000_0000,
                        0 <= (weights.target_milli as int) <= 100_000;
            }
            (
                crate::geom::div_i128(tdx * (weights.target_milli as i128), 1000),
                crate::geom::div_i128(tdy * (weights.target_milli as i128), 1000),
            )
        },
        None => (0, 0),
    };

    proof {
        assert(-1_000_000 <= (nav.0 as int) * (weights.backward as int) <= 1_000_000
            && -1_000_000 <= (nav.1 as int) * (weights.backward as int) <= 1_000_000
            && -1_000_000 <= (perp.0 as int) * (weights.lateral as int) <= 1_000_000
            && -1_000_000 <= (perp.1 as int) * (weights.lateral as int) <= 1_000_000)
            by (nonlinear_arith)
            requires
                -1000 <= (nav.0 as int) <= 1000,
                -1000 <= (nav.1 as int) <= 1000,
                -1000 <= (perp.0 as int) <= 1000,
                -1000 <= (perp.1 as int) <= 1000,
                0 <= (weights.backward as int) <= 1000,
                0 <= (weights.lateral as int) <= 1000;
        lemma_div_trunc_bound((tpull.0 as int) * 1000, 1000, 0x1_0000_0000int * 100);
    }
    let bx: i128 = crate::geom::div_i128(
        (nav.0 as i128) * (weights.backward as i128), 1000);
    let by: i128 = crate::geom::div_i128(
        (nav.1 as i128) * (weights.backward as i128), 1000);
    let lx: i128 = crate::geom::div_i128(
        (perp.0 as i128) * (weights.lateral as i128), 1000);
    let ly: i128 = crate::geom::div_i128(
        (perp.1 as i128) * (weights.lateral as i128), 1000);
    proof {
        lemma_div_trunc_bound((nav.0 as int) * (weights.backward as int), 1000, 1_000_000);
        lemma_div_trunc_bound((nav.1 as int) * (weights.backward as int), 1000, 1_000_000);
        lemma_div_trunc_bound((perp.0 as int) * (weights.lateral as int), 1000, 1_000_000);
        lemma_div_trunc_bound((perp.1 as int) * (weights.lateral as int), 1000, 1_000_000);
        match target {
            Some(t) => {
                lemma_div_trunc_bound(
                    ((t.0 as int) - (u.0 as int)) * (weights.target_milli as int),
                    1000, 0x1_0000_0000int * 100_000);
                assert(-(1000 * (0x1_0000_0000 * 100_000))
                    <= ((t.0 as int) - (u.0 as int)) * (weights.target_milli as int)
                    <= 1000 * (0x1_0000_0000 * 100_000)) by (nonlinear_arith)
                    requires
                        -0x1_0000_0000 <= (t.0 as int) - (u.0 as int) <= 0x1_0000_0000,
                        0 <= (weights.target_milli as int) <= 100_000;
                lemma_div_trunc_bound(
                    ((t.1 as int) - (u.1 as int)) * (weights.target_milli as int),
                    1000, 0x1_0000_0000int * 100_000);
                assert(-(1000 * (0x1_0000_0000 * 100_000))
                    <= ((t.1 as int) - (u.1 as int)) * (weights.target_milli as int)
                    <= 1000 * (0x1_0000_0000 * 100_000)) by (nonlinear_arith)
                    requires
                        -0x1_0000_0000 <= (t.1 as int) - (u.1 as int) <= 0x1_0000_0000,
                        0 <= (weights.target_milli as int) <= 100_000;
            },
            None => {},
        }
    }
    let cx: i128 = u.0 as i128 + bx + lx + tpull.0;
    let cy: i128 = u.1 as i128 + by + ly + tpull.1;
    let ghost cand = spec_candidate(u, target, threats@, weights);
    proof {
        assert(cand == Some((cx as int, cy as int)));
    }

    if walkable_wide(grid, cx, cy) {
        proof {
            assert(grid.width * 8 <= 8192 && grid.height * 8 <= 8192);
        }
        return Some((cx as i32, cy as i32));
    }

    // ring search outward for the nearest walkable point
    let mut k: usize = 0;
    while k < 40
        invariant
            grid.wf(),
            k <= 40,
            u == unit_pos,
            cand == spec_candidate(u, target, threats@, weights),
            cand == Some((cx as int, cy as int)),
            !grid.walkable_px(cx as int, cy as int),
            spec_avoidance_move(grid, u, target, threats@, weights)
                == spec_ring_search(grid, (cx as int, cy as int), 0),
            spec_ring_search(grid, (cx as int, cy as int), 0)
                == spec_ring_search(grid, (cx as int, cy as int), k as int),
            -0x2_0000_0000_0000 <= cx <= 0x2_0000_0000_0000,
            -0x2_0000_0000_0000 <= cy <= 0x2_0000_0000_0000,
        decreases 40 - k,
    {
        let radius: i128 = (k as i128) / 8 + 1;
        let step: usize = k % 8;
        let d: i128 = radius * 8;
        proof {
            assert(1 <= radius <= 5 && 8 <= d <= 40);
            assert(-40_000 <= off_of_step(step as int).0 * d
                <= 40_000
                && -40_000 <= off_of_step(step as int).1 * d <= 40_000)
                by (nonlinear_arith)
                requires
                    -1000 <= off_of_step(step as int).0 <= 1000,
                    -1000 <= off_of_step(step as int).1 <= 1000,
                    0 <= d <= 40;
        }
        let off: (i128, i128) = match step {
            0 => (1000, 0),
            1 => (707, 707),
            2 => (0, 1000),
            3 => (-707, 707),
            4 => (-1000, 0),
            5 => (-707, -707),
            6 => (0, -1000),
            _ => (707, -707),
        };
        proof {
            assert((off.0 as int, off.1 as int) == off_of_step(step as int));
        }
        let px: i128 = cx + crate::geom::div_i128(off.0 * d, 1000);
        let py: i128 = cy + crate::geom::div_i128(off.1 * d, 1000);
        proof {
            assert((px as int, py as int) == ring_probe((cx as int, cy as int), k as int));
        }
        if walkable_wide(grid, px, py) {
            proof {
                assert(grid.width * 8 <= 8192 && grid.height * 8 <= 8192);
                assert(spec_ring_search(grid, (cx as int, cy as int), k as int)
                    == Some(ring_probe((cx as int, cy as int), k as int)));
                assert(spec_avoidance_move(grid, u, target, threats@, weights)
                    == Some((px as int, py as int)));
                assert(grid.walkable_px(px as int, py as int));
                assert(0 <= px && (px as int) < grid.width * 8
                    && 0 <= py && (py as int) < grid.height * 8);
                assert(0 <= px < 8192 && 0 <= py < 8192);
                assert(((px as i32) as int) == px as int
                    && ((py as i32) as int) == py as int);
            }
            let ret: (i32, i32) = (px as i32, py as i32);
            proof {
                assert(spec_avoidance_move(grid, unit_pos, target, threats@, weights)
                    == Some((ret.0 as int, ret.1 as int)));
                assert(grid.walkable_px(ret.0 as int, ret.1 as int));
            }
            return Some(ret);
        }
        proof {
            lemma_ring_search_skip(grid, (cx as int, cy as int), k as int);
        }
        k += 1;
    }
    None
}

} // verus!

verus! {

/// Whether the enemy snapshot is a threat to a unit at `pos`: it can attack,
/// it is not a drone, any structure is complete, and it stands within its
/// class's threat radius (melee threatens near, ranged out to its range plus
/// a buffer), all inside the overall detection radius.
pub open spec fn is_threat_to(pos: (i32, i32), e: EnemyUnit) -> bool {
    let d2 = dist_sq(pos.0 as int, pos.1 as int, e.pos.0 as int, e.pos.1 as int);
    let range = if e.has_ground_weapon { e.ground_range as int } else { e.air_range as int };
    let threat_radius: int = if range <= 32 { 60 } else { range + 100 };
    (e.has_ground_weapon || e.has_air_weapon)
    && !e.is_drone
    && !(e.is_building && !e.is_completed)
    && d2 <= 300 * 300
    && d2 <= threat_radius * threat_radius
}

/// Positions of the threats among the first `i` enemies.
pub open spec fn threat_positions(pos: (i32, i32), es: Seq<EnemyUnit>, i: int) -> Seq<(i32, i32)>
    decreases i,
{
    if i <= 0 {
        Seq::empty()
    } else if is_threat_to(pos, es[i - 1]) {
        threat_positions(pos, es, i - 1).push(es[i - 1].pos)
    } else {
        threat_positions(pos, es, i - 1)
    }
}

/// Identifies threats by weapon range and proximity: the positions of every
/// enemy that threatens a unit standing at `pos`, in input order.  Order is
/// immaterial to every consumer: the steering aggregates are commutative
/// sums, and target selection takes a minimum over the whole list.
pub fn get_threats_with_range_awareness(
    enemies: &Vec<EnemyUnit>,
    pos: (i32, i32),
) -> (r: Vec<(i32, i32)>)
    requires
        coord_ok(pos),
        forall|j: int| 0 <= j < enemies@.len()
            ==> coord_ok((#[trigger] enemies@[j]).pos)
                && 0 <= enemies@[j].ground_range < 10_000
                && 0 <= enemies@[j].air_range < 10_000,
    ensures
        r@ == threat_positions(pos, enemies@, enemies@.len() as int),
        forall|j: int| 0 <= j < r@.len() ==> coord_ok(#[trigger] r@[j]),
{
    let n = enemies.len();
    let mut r: Vec<(i32, i32)> = Vec::new();
    let mut i: usize = 0;
    while i < n
        invariant
            n == enemies@.len(),
            i <= n,
            coord_ok(pos),
            forall|j: int| 0 <= j < enemies@.len()
                ==> coord_ok((#[trigger] enemies@[j]).pos)
                    && 0 <= enemies@[j].ground_range < 10_000
                    && 0 <= enemies@[j].air_range < 10_000,
            r@ == threat_positions(pos, enemies@, i as int),
            forall|j: int| 0 <= j < r@.len() ==> coord_ok(#[trigger] r@[j]),
        decreases n - i,
    {
        let e = enemies[i];
        if (e.has_ground_weapon || e.has_air_weapon) && !e.is_drone
            && !(e.is_building && !e.is_completed) {
            let d2 = crate::geom::distance_squared(pos, e.pos);
            let range: i64 = if e.has_ground_weapon {
                e.ground_range as i64
            } else {
                e.air_range as i64
            };
            let threat_radius: i64 = if range <= 32 { 60 } else { range + 100 };
            proof {
                assert(0 <= (threat_radius as int) * (threat_radius as int)
                    < 0x1_0000_0000_0000_0000) by (nonlinear_arith)
                    requires 0 <= (threat_radius as int) <= 10_100;
            }
            if d2 <= 300 * 300 && d2 <= (threat_radius as i128) * (threat_radius as i128) {
                r.push(e.pos);
            }
        }
        i += 1;
        proof {
            assert(r@ == threat_positions(pos, enemies@, i as int));
        }
    }
    r
}

/// Whether a fresh move command should be issued rather than letting the
/// current one stand: yes when not already moving, when about to arrive (to
/// avoid deceleration), or when the current heading diverges from the new
/// target by more than about sixty degrees.
pub open spec fn spec_should_reissue(
    unit_pos: (i32, i32),
    moving: bool,
    order_target: Option<(i32, i32)>,
    new_target: (i32, i32),
) -> bool {
    if !moving {
        true
    } else {
        match order_target {
            None => true,
            Some(ct) => {
                let d2 = dist_sq(unit_pos.0 as int, unit_pos.1 as int,
                    ct.0 as int, ct.1 as int);
                if d2 < 48 * 48 {
                    true
                } else {
                    let cd = norm_milli(ct.0 - unit_pos.0, ct.1 - unit_pos.1);
                    let nd = norm_milli(new_target.0 - unit_pos.0,
                        new_target.1 - unit_pos.1);
                    if cd != (0int, 0int) && nd != (0int, 0int) {
                        cd.0 * nd.0 + cd.1 * nd.1 < 500_000
                    } else {
                        true
                    }
                }
            },
        }
    }
}

/// Decides `spec_should_reissue` exactly.  `moving` is whether the unit's
/// current engine order is a move.
pub fn should_reissue_move_command(
    unit_pos: (i32, i32),
    moving: bool,
    order_target: Option<(i32, i32)>,
    new_target: (i32, i32),
) -> (r: bool)
    requires
        coord_ok(unit_pos),
        order_target matches Some(t) ==> coord_ok(t),
        coord_ok(new_target),
    ensures
        r == spec_should_reissue(unit_pos, moving, order_target, new_target),
{
    if !moving {
        return true;
    }
    let ct = match order_target {
        None => {
            return true;
        },
        Some(ct) => ct,
    };
    let d2 = crate::geom::distance_squared(unit_pos, ct);
    if d2 < 48 * 48 {
        return true;
    }
    let cd = norm_milli_exec(ct.0 as i64 - unit_pos.0 as i64,
        ct.1 as i64 - unit_pos.1 as i64);
    let nd = norm_milli_exec(new_target.0 as i64 - unit_pos.0 as i64,
        new_target.1 as i64 - unit_pos.1 as i64);
    if (cd.0 != 0 || cd.1 != 0) && (nd.0 != 0 || nd.1 != 0) {
        proof {
            assert(-1_000_000 <= (cd.0 as int) * (nd.0 as int) <= 1_000_000
                && -1_000_000 <= (cd.1 as int) * (nd.1 as int) <= 1_000_000)
                by (nonlinear_arith)
                requires
                    -1000 <= (cd.0 as int) <= 1000,
                    -1000 <= (cd.1 as int) <= 1000,
                    -1000 <= (nd.0 as int) <= 1000,
                    -1000 <= (nd.1 as int) <= 1000;
        }
        let dot: i64 = cd.0 * nd.0 + cd.1 * nd.1;
        dot < 500_000
    } else {
        true
    }
}

/// The outcome of one unit's threat-avoidance pass.
#[derive(Clone, Copy, Debug, PartialEq, Eq, Structural)]
pub enum AvoidanceDecision {
    /// No threat in range: avoidance does not apply.
    NoThreats,
    /// Threats in range, but no walkable escape point was found; the caller
    /// falls through to its next behavior.
    NoEscape,
    /// Threats handled; the current command already serves, issue nothing.
    HoldCourse,
    /// Threats handled; issue a move to the point.
    MoveTo(i32, i32),
}

/// One unit's threat-avoidance decision: identify threats around the unit,
/// steer, and re-issue the move only if the unit is not already heading the
/// right way.  Any commanded point is walkable.
pub fn handle_threat_avoidance(
    grid: &WalkGrid,
    unit_pos: (i32, i32),
    moving: bool,
    order_target: Option<(i32, i32)>,
    enemies: &Vec<EnemyUnit>,
    target_position: Option<(i32, i32)>,
    mode: ThreatAvoidanceMode,
) -> (r: AvoidanceDecision)
    requires
        grid.wf(),
        coord_ok(unit_pos),
        order_target matches Some(t) ==> coord_ok(t),
        target_position matches Some(t) ==> coord_ok(t),
        forall|j: int| 0 <= j < enemies@.len()
            ==> coord_ok((#[trigger] enemies@[j]).pos)
                && 0 <= enemies@[j].ground_range < 10_000
                && 0 <= enemies@[j].air_range < 10_000,
    ensures
        r matches AvoidanceDecision::MoveTo(x, y)
            ==> grid.walkable_px(x as int, y as int),
        ({
            let ts = threat_positions(unit_pos, enemies@, enemies@.len() as int);
            let mv = spec_avoidance_move(
                grid, unit_pos, target_position, ts, spec_weights(mode));
            &&& (r == AvoidanceDecision::NoThreats <==> ts.len() == 0)
            &&& (r == AvoidanceDecision::NoEscape <==> ts.len() > 0 && mv is None)
            &&& (r matches AvoidanceDecision::MoveTo(x, y)
                ==> mv == Some((x as int, y as int))
                    && spec_should_reissue(unit_pos, moving, order_target, (x, y)))
            &&& ({
                let p = mv.unwrap();
                ts.len() > 0 && mv is Some && spec_should_reissue(
                    unit_pos, moving, order_target, (p.0 as i32, p.1 as i32))
                    ==> r == AvoidanceDecision::MoveTo(p.0 as i32, p.1 as i32)
            })
            &&& (r == AvoidanceDecision::HoldCourse
                <==> ts.len() > 0 && (mv matches Some(p)
                    && !spec_should_reissue(
                        unit_pos, moving, order_target,
                        (p.0 as i32, p.1 as i32))))
        }),
{
    let threats = get_threats_with_range_awareness(enemies, unit_pos);
    if threats.len() == 0 {
        return AvoidanceDecision::NoThreats;
    }
    let weights = mode.weights();
    match calculate_threat_avoidance_move(grid, unit_pos, &threats, target_position, weights) {
        Some(p) => {
            proof {
                assert((p.0 as int as i32, p.1 as int as i32) == p);
            }
            if should_reissue_move_command(unit_pos, moving, order_target, p) {
                AvoidanceDecision::MoveTo(p.0, p.1)
            } else {
                AvoidanceDecision::HoldCourse
            }
        },
        None => AvoidanceDecision::NoEscape,
    }
}

} // verus!
