//! Expansion base placement: clustering the map's resources and choosing,
//! for each cluster, the buildable depot tile that minimizes the summed
//! distance from the depot's edge to the cluster's resources (gas counting
//! double), then ordering the chosen sites nearest-first from the start.

use vstd::prelude::*;
use crate::geom::{dist_sq, sqrt_floor, clamp_spec, coord_ok};
use crate::units::ResourceNode;
use crate::build_location::BuildWindow;

verus! {

/// The point of the depot footprint (four by three tiles) on tile `t`
/// closest to `p`.
pub open spec fn spec_closest_point_on_depot(t: (i32, i32), p: (i32, i32)) -> (int, int) {
    (clamp_spec(p.0 as int, t.0 * 32, t.0 * 32 + 128),
        clamp_spec(p.1 as int, t.1 * 32, t.1 * 32 + 96))
}

/// Computes `spec_closest_point_on_depot` exactly.
pub fn closest_point_on_depot(t: (i32, i32), p: (i32, i32)) -> (r: (i32, i32))
    requires
        0 <= t.0 <= 600,
        0 <= t.1 <= 600,
    ensures
        (r.0 as int, r.1 as int) == spec_closest_point_on_depot(t, p),
{
    (
        crate::geom::clamp_i32(p.0, t.0 * 32, t.0 * 32 + 128),
        crate::geom::clamp_i32(p.1, t.1 * 32, t.1 * 32 + 96),
    )
}

/// Distance from `p` to the depot footprint's edge, rounded down.
pub open spec fn spec_distance_to_depot_edge(t: (i32, i32), p: (i32, i32)) -> int {
    let c = spec_closest_point_on_depot(t, p);
    sqrt_floor(dist_sq(p.0 as int, p.1 as int, c.0, c.1))
}

pub fn distance_to_depot_edge(t: (i32, i32), p: (i32, i32)) -> (r: u64)
    requires
        0 <= t.0 <= 600,
        0 <= t.1 <= 600,
        coord_ok(p),
    ensures
        r as int == spec_distance_to_depot_edge(t, p),
{
    let c = closest_point_on_depot(t, p);
    crate::geom::distance(p, c)
}

/// Whether `e` is one of the listed resources.
pub open spec fn is_member(resources: Seq<ResourceNode>, e: ResourceNode) -> bool {
    exists|k: int| 0 <= k < resources.len() && #[trigger] resources[k] == e
}

/// Total size of the first `i` clusters.
pub open spec fn sum_cluster_sizes(clusters: Seq<Vec<ResourceNode>>, i: int) -> int
    decreases i,
{
    if i <= 0 {
        0
    } else {
        sum_cluster_sizes(clusters, i - 1) + clusters[i - 1]@.len()
    }
}

/// The size sum reads only the prefix it covers.
proof fn lemma_sum_sizes_prefix(s1: Seq<Vec<ResourceNode>>, s2: Seq<Vec<ResourceNode>>, i: int)
    requires
        0 <= i <= s1.len(),
        i <= s2.len(),
        forall|j: int| 0 <= j < i ==> s1[j] == s2[j],
    ensures
        sum_cluster_sizes(s1, i) == sum_cluster_sizes(s2, i),
    decreases i,
{
    if i > 0 {
        lemma_sum_sizes_prefix(s1, s2, i - 1);
    }
}

/// Groups the listed resources into clusters of mutual proximity (within
/// nine build tiles of some member).  Every input index appears in exactly
/// one cluster; the contract states membership soundness.
pub fn cluster_resources(resources: &Vec<ResourceNode>) -> (r: Vec<Vec<ResourceNode>>)
    ensures
        forall|ci: int, ri: int| 0 <= ci < r@.len()
            && 0 <= ri < (#[trigger] r@[ci])@.len()
            ==> is_member(resources@, #[trigger] r@[ci]@[ri]),
        forall|ci: int| 0 <= ci < r@.len()
            ==> (#[trigger] r@[ci])@.len() <= resources@.len(),
        // the clusters partition the input by count: sizes add up exactly
        sum_cluster_sizes(r@, r@.len() as int) == resources@.len(),
{
    let mut remaining: Vec<ResourceNode> = Vec::new();
    let mut i: usize = 0;
    while i < resources.len()
        invariant
            i <= resources@.len(),
            remaining@ == resources@.subrange(0, i as int),
        decreases resources@.len() - i,
    {
        remaining.push(resources[i]);
        i += 1;
        proof {
            assert(remaining@ =~= resources@.subrange(0, i as int));
        }
    }
    proof {
        assert(remaining@ =~= resources@);
        assert forall|j: int| 0 <= j < remaining@.len()
            implies is_member(resources@, #[trigger] remaining@[j]) by {
            assert(resources@[j] == remaining@[j]);
        }
    }

    let mut clusters: Vec<Vec<ResourceNode>> = Vec::new();
    while remaining.len() > 0
        invariant
            remaining@.len() <= resources@.len(),
            forall|j: int| 0 <= j < remaining@.len()
                ==> is_member(resources@, #[trigger] remaining@[j]),
            forall|ci: int, ri: int| 0 <= ci < clusters@.len()
                && 0 <= ri < (#[trigger] clusters@[ci])@.len()
                ==> is_member(resources@, #[trigger] clusters@[ci]@[ri]),
            forall|ci: int| 0 <= ci < clusters@.len()
                ==> (#[trigger] clusters@[ci])@.len() <= resources@.len(),
            sum_cluster_sizes(clusters@, clusters@.len() as int) + remaining@.len()
                == resources@.len(),
        decreases remaining@.len(),
    {
        let ghost pre = remaining@;
        let seed = remaining.pop().unwrap();
        proof {
            assert(seed == pre[pre.len() - 1]);
            assert forall|j: int| 0 <= j < remaining@.len()
                implies is_member(resources@, #[trigger] remaining@[j]) by {
                assert(remaining@[j] == pre[j]);
            }
        }
        let mut cluster: Vec<ResourceNode> = Vec::new();
        cluster.push(seed);
        let ghost total0 = cluster@.len() + remaining@.len();
        let mut ci: usize = 0;
        while ci < cluster.len()
            invariant
                ci <= cluster@.len(),
                cluster@.len() >= 1,
                forall|j: int| 0 <= j < remaining@.len()
                    ==> is_member(resources@, #[trigger] remaining@[j]),
                forall|j: int| 0 <= j < cluster@.len()
                    ==> is_member(resources@, #[trigger] cluster@[j]),
                cluster@.len() + remaining@.len() == total0,
                total0 <= pre.len(),
                pre.len() <= resources@.len(),
            decreases cluster@.len() + remaining@.len() - ci,
        {
            let p = cluster[ci].pos;
            let mut j: usize = 0;
            while j < remaining.len()
                invariant
                    j <= remaining@.len(),
                    ci < cluster@.len(),
                    forall|jj: int| 0 <= jj < remaining@.len()
                        ==> is_member(resources@, #[trigger] remaining@[jj]),
                    forall|jj: int| 0 <= jj < cluster@.len()
                        ==> is_member(resources@, #[trigger] cluster@[jj]),
                    cluster@.len() + remaining@.len() == total0,
                    total0 <= pre.len(),
                    pre.len() <= resources@.len(),
                decreases remaining@.len() - j,
            {
                let d2 = crate::geom::distance_squared(p, remaining[j].pos);
                if d2 < 288 * 288 {
                    let ghost pre_rem = remaining@;
                    let ghost pre_clu = cluster@;
                    let moved = remaining.remove(j);
                    cluster.push(moved);
                    proof {
                        assert(moved == pre_rem[j as int]);
                        assert(cluster@[cluster@.len() - 1] == moved);
                        assert forall|jj: int| 0 <= jj < remaining@.len()
                            implies is_member(resources@, #[trigger] remaining@[jj]) by {
                            let jj0 = if jj < j { jj } else { jj + 1 };
                            assert(remaining@[jj] == pre_rem[jj0]);
                        }
                        assert forall|jj: int| 0 <= jj < cluster@.len()
                            implies is_member(resources@, #[trigger] cluster@[jj]) by {
                            if jj < cluster@.len() - 1 {
                                assert(cluster@[jj] == pre_clu[jj]);
                            }
                        }
                    }
                } else {
                    j += 1;
                }
            }
            ci += 1;
        }
        proof {
            assert(cluster@.len() <= resources@.len());
        }
        let ghost pre_clusters = clusters@;
        let ghost pushed_len = cluster@.len();
        clusters.push(cluster);
        proof {
            assert(clusters@.drop_last() =~= pre_clusters);
            lemma_sum_sizes_prefix(clusters@, pre_clusters, pre_clusters.len() as int);
            assert(clusters@[clusters@.len() - 1]@.len() == pushed_len);
            assert(sum_cluster_sizes(clusters@, clusters@.len() as int)
                == sum_cluster_sizes(pre_clusters, pre_clusters.len() as int)
                    + pushed_len);
            assert forall|cii: int, ri: int| 0 <= cii < clusters@.len()
                && 0 <= ri < (#[trigger] clusters@[cii])@.len()
                implies is_member(resources@, #[trigger] clusters@[cii]@[ri]) by {
                if cii < clusters@.len() - 1 {
                    assert(clusters@[cii] == pre_clusters[cii]);
                }
            }
            assert forall|cii: int| 0 <= cii < clusters@.len()
                implies (#[trigger] clusters@[cii])@.len() <= resources@.len() by {
                if cii < clusters@.len() - 1 {
                    assert(clusters@[cii] == pre_clusters[cii]);
                }
            }
        }
    }
    clusters
}

/// Whether the depot footprint on tile `t` would overlap a resource or stand
/// closer than the minimum spacing (three tiles, in pixels) to one.
pub open spec fn spec_depot_too_close(t: (i32, i32), rs: Seq<ResourceNode>, i: int) -> bool
    decreases i,
{
    if i <= 0 {
        false
    } else {
        spec_depot_too_close(t, rs, i - 1) || {
            let p = rs[i - 1].pos;
            let tile = ((p.0 as int) / 32, (p.1 as int) / 32);
            let overlaps = t.0 <= tile.0 < t.0 + 4 && t.1 <= tile.1 < t.1 + 3;
            let c = spec_closest_point_on_depot(t, p);
            overlaps || dist_sq(p.0 as int, p.1 as int, c.0, c.1) < 128 * 128
        }
    }
}

/// Once too close within a prefix, too close within every longer prefix.
proof fn lemma_depot_too_close_mono(t: (i32, i32), rs: Seq<ResourceNode>, i: int, n: int)
    requires
        0 <= i <= n <= rs.len(),
        spec_depot_too_close(t, rs, i),
    ensures
        spec_depot_too_close(t, rs, n),
    decreases n - i,
{
    if i < n {
        lemma_depot_too_close_mono(t, rs, i + 1, n);
    }
}

/// Decides `spec_depot_too_close` exactly.
pub fn is_depot_too_close_to_resources(
    t: (i32, i32), resources: &Vec<ResourceNode>,
) -> (r: bool)
    requires
        0 <= t.0 <= 600,
        0 <= t.1 <= 600,
        forall|j: int| 0 <= j < resources@.len()
            ==> coord_ok((#[trigger] resources@[j]).pos)
                && resources@[j].pos.0 >= 0 && resources@[j].pos.1 >= 0,
    ensures
        r == spec_depot_too_close(t, resources@, resources@.len() as int),
{
    let n = resources.len();
    let mut i: usize = 0;
    while i < n
        invariant
            n == resources@.len(),
            i <= n,
            0 <= t.0 <= 600,
            0 <= t.1 <= 600,
            forall|j: int| 0 <= j < resources@.len()
                ==> coord_ok((#[trigger] resources@[j]).pos)
                    && resources@[j].pos.0 >= 0 && resources@[j].pos.1 >= 0,
            !spec_depot_too_close(t, resources@, i as int),
        decreases n - i,
    {
        let p = resources[i].pos;
        let tx = ((p.0 as u32) / 32) as i32;
        let ty = ((p.1 as u32) / 32) as i32;
        let overlaps = t.0 <= tx && tx < t.0 + 4 && t.1 <= ty && ty < t.1 + 3;
        let c = closest_point_on_depot(t, p);
        let d2 = crate::geom::distance_squared(p, c);
        if overlaps || d2 < 128 * 128 {
            proof {
                assert(spec_depot_too_close(t, resources@, i + 1));
                lemma_depot_too_close_mono(t, resources@, i + 1,
                    resources@.len() as int);
            }
            return true;
        }
        i += 1;
    }
    false
}

/// Sum over the first `i` resources of the edge distance, gas doubled.
pub open spec fn spec_depot_site_score(t: (i32, i32), rs: Seq<ResourceNode>, i: int) -> int
    decreases i,
{
    if i <= 0 {
        0
    } else {
        spec_depot_site_score(t, rs, i - 1)
            + spec_distance_to_depot_edge(t, rs[i - 1].pos)
                * (if rs[i - 1].is_gas { 2int } else { 1int })
    }
}

proof fn lemma_site_score_bounds(t: (i32, i32), rs: Seq<ResourceNode>, i: int)
    requires
        0 <= i <= rs.len(),
        0 <= t.0 <= 600,
        0 <= t.1 <= 600,
        forall|j: int| 0 <= j < rs.len() ==> coord_ok((#[trigger] rs[j]).pos),
    ensures
        0 <= spec_depot_site_score(t, rs, i) <= i * 0x4_0000_0000,
    decreases i,
{
    if i > 0 {
        lemma_site_score_bounds(t, rs, i - 1);
        let p = rs[i - 1].pos;
        let c = spec_closest_point_on_depot(t, p);
        let ds = dist_sq(p.0 as int, p.1 as int, c.0, c.1);
        assert(0 <= ds <= 0x4_0000_0000_0000_0000) by (nonlinear_arith)
            requires
                ds == ((p.0 as int) - c.0) * ((p.0 as int) - c.0)
                    + ((p.1 as int) - c.1) * ((p.1 as int) - c.1),
                -0x4000_0000 <= p.0 <= 0x4000_0000,
                -0x4000_0000 <= p.1 <= 0x4000_0000,
                -0x8000_0000 <= c.0 <= 0x8000_0000,
                -0x8000_0000 <= c.1 <= 0x8000_0000;
        crate::geom::lemma_sqrt_floor_bounds(ds);
        let d = sqrt_floor(ds);
        assert(0 <= d <= 0x2_0000_0000) by (nonlinear_arith)
            requires d >= 0, d * d <= ds, ds <= 0x4_0000_0000_0000_0000;
        let w: int = if rs[i - 1].is_gas { 2 } else { 1 };
        assert(0 <= d * w <= 0x4_0000_0000) by (nonlinear_arith)
            requires 0 <= d <= 0x2_0000_0000, 1 <= w <= 2;
        assert((i - 1) * 0x4_0000_0000 + 0x4_0000_0000 == i * 0x4_0000_0000)
            by (nonlinear_arith);
    }
}

/// Scores a candidate depot tile against a cluster, exactly.
pub fn depot_site_score(t: (i32, i32), rs: &Vec<ResourceNode>) -> (r: i128)
    requires
        0 <= t.0 <= 600,
        0 <= t.1 <= 600,
        forall|j: int| 0 <= j < rs@.len() ==> coord_ok((#[trigger] rs@[j]).pos),
        rs@.len() <= 100_000,
    ensures
        r == spec_depot_site_score(t, rs@, rs@.len() as int),
{
    let n = rs.len();
    let mut acc: i128 = 0;
    let mut i: usize = 0;
    while i < n
        invariant
            n == rs@.len(),
            i <= n,
            0 <= t.0 <= 600,
            0 <= t.1 <= 600,
            forall|j: int| 0 <= j < rs@.len() ==> coord_ok((#[trigger] rs@[j]).pos),
            n <= 100_000,
            acc == spec_depot_site_score(t, rs@, i as int),
        decreases n - i,
    {
        proof {
            lemma_site_score_bounds(t, rs@, i as int);
            assert((i as int) * 0x4_0000_0000 <= 0x4000_0000_0000_0000)
                by (nonlinear_arith)
                requires 0 <= (i as int) <= 100_000;
        }
        let d = distance_to_depot_edge(t, rs[i].pos);
        let w: i128 = if rs[i].is_gas { 2 } else { 1 };
        acc = acc + (d as i128) * w;
        i += 1;
    }
    acc
}

/// Whether the tile is a lawful depot site for the cluster: buildable and
/// adequately spaced from every cluster resource.
pub open spec fn depot_site_ok(
    window: &BuildWindow, cluster: Seq<ResourceNode>, tx: int, ty: int,
) -> bool {
    window.buildable_at(tx, ty)
        && !spec_depot_too_close((tx as i32, ty as i32), cluster, cluster.len() as int)
}

/// Searches the window for the lawful depot tile of minimal score (summed
/// edge distance, gas doubled); among equal scores the first visited wins.
/// Nothing is returned only for an empty cluster or when no window tile is
/// a lawful site.
pub fn find_best_depot_location(
    window: &BuildWindow,
    cluster: &Vec<ResourceNode>,
) -> (r: Option<(i32, i32)>)
    requires
        window.wf(),
        forall|j: int| 0 <= j < cluster@.len()
            ==> coord_ok((#[trigger] cluster@[j]).pos)
                && cluster@[j].pos.0 >= 0 && cluster@[j].pos.1 >= 0,
        cluster@.len() <= 100_000,
    ensures
        r matches Some(t) ==> depot_site_ok(window, cluster@, t.0 as int, t.1 as int)
            && 0 <= t.0 <= 600 && 0 <= t.1 <= 600
            && forall|tx: int, ty: int| #[trigger] depot_site_ok(window, cluster@, tx, ty)
                ==> spec_depot_site_score(t, cluster@, cluster@.len() as int)
                    <= spec_depot_site_score((tx as i32, ty as i32), cluster@,
                        cluster@.len() as int),
        r is None ==> cluster@.len() == 0
            || forall|tx: int, ty: int| !depot_site_ok(window, cluster@, tx, ty),
{
    if cluster.len() == 0 {
        return None;
    }

    let mut best: Option<(i32, i32)> = None;
    let mut best_score: i128 = 0;
    let mut oy: usize = 0;
    while oy < window.height
        invariant
            window.wf(),
            oy <= window.height,
            forall|j: int| 0 <= j < cluster@.len()
                ==> coord_ok((#[trigger] cluster@[j]).pos)
                    && cluster@[j].pos.0 >= 0 && cluster@[j].pos.1 >= 0,
            cluster@.len() <= 100_000,
            best matches Some(t) ==> depot_site_ok(window, cluster@, t.0 as int, t.1 as int)
                && 0 <= t.0 <= 600 && 0 <= t.1 <= 600
                && best_score == spec_depot_site_score(t, cluster@, cluster@.len() as int),
            best matches Some(t) ==> forall|tx: int, ty: int|
                #[trigger] depot_site_ok(window, cluster@, tx, ty)
                && ty < window.origin.1 + oy
                ==> best_score <= spec_depot_site_score((tx as i32, ty as i32),
                    cluster@, cluster@.len() as int),
            best is None ==> forall|tx: int, ty: int|
                !(depot_site_ok(window, cluster@, tx, ty)
                    && ty < window.origin.1 + oy),
        decreases window.height - oy,
    {
        let ty: i32 = window.origin.1 + oy as i32;
        let mut ox: usize = 0;
        while ox < window.width
            invariant
                window.wf(),
                oy < window.height,
                ox <= window.width,
                ty == window.origin.1 + oy as i32,
                forall|j: int| 0 <= j < cluster@.len()
                    ==> coord_ok((#[trigger] cluster@[j]).pos)
                        && cluster@[j].pos.0 >= 0 && cluster@[j].pos.1 >= 0,
                cluster@.len() <= 100_000,
                best matches Some(t)
                    ==> depot_site_ok(window, cluster@, t.0 as int, t.1 as int)
                    && 0 <= t.0 <= 600 && 0 <= t.1 <= 600
                    && best_score == spec_depot_site_score(
                        t, cluster@, cluster@.len() as int),
                best matches Some(t) ==> forall|tx: int, tyy: int|
                    #[trigger] depot_site_ok(window, cluster@, tx, tyy)
                    && (tyy < ty as int || (tyy == ty as int
                        && tx < window.origin.0 + ox))
                    ==> best_score <= spec_depot_site_score((tx as i32, tyy as i32),
                        cluster@, cluster@.len() as int),
                best is None ==> forall|tx: int, tyy: int|
                    !(depot_site_ok(window, cluster@, tx, tyy)
                        && (tyy < ty as int || (tyy == ty as int
                            && tx < window.origin.0 + ox))),
            decreases window.width - ox,
        {
            let tx: i32 = window.origin.0 + ox as i32;
            if window.is_buildable_at(tx, ty)
                && !is_depot_too_close_to_resources((tx, ty), cluster) {
                let s = depot_site_score((tx, ty), cluster);
                let take = match best {
                    Some(_) => s < best_score,
                    None => true,
                };
                if take {
                    best = Some((tx, ty));
                    best_score = s;
                }
            }
            ox += 1;
            proof {
                assert forall|txx: int, tyy: int|
                    #[trigger] depot_site_ok(window, cluster@, txx, tyy)
                    && (tyy < ty as int || (tyy == ty as int
                        && txx < window.origin.0 + ox))
                    implies (best matches Some(t) && best_score
                        <= spec_depot_site_score((txx as i32, tyy as i32),
                            cluster@, cluster@.len() as int)) by {
                    if tyy == ty as int && txx == tx as int {
                        assert((txx as i32, tyy as i32) == (tx, ty));
                    }
                }
            }
        }
        oy += 1;
    }
    proof {
        match best {
            Some(t) => {
                assert forall|tx: int, ty: int|
                    #[trigger] depot_site_ok(window, cluster@, tx, ty)
                    implies spec_depot_site_score(t, cluster@, cluster@.len() as int)
                        <= spec_depot_site_score((tx as i32, ty as i32), cluster@,
                            cluster@.len() as int) by {
                    assert(ty < window.origin.1 + window.height);
                }
            },
            None => {
                assert forall|tx: int, ty: int|
                    #[trigger] depot_site_ok(window, cluster@, tx, ty)
                    implies false by {
                    assert(ty < window.origin.1 + window.height);
                }
            },
        }
    }
    best
}

/// All expansion sites, ordered nearest-first from the start tile by edge
/// distance.  Every returned tile is a buildable, adequately spaced depot
/// site for some resource cluster.
pub fn get_base_locations_ordered(
    window: &BuildWindow,
    minerals: &Vec<ResourceNode>,
    geysers: &Vec<ResourceNode>,
    start_tile: (i32, i32),
) -> (r: Vec<(i32, i32)>)
    requires
        window.wf(),
        0 <= start_tile.0 <= 600,
        0 <= start_tile.1 <= 600,
        forall|j: int| 0 <= j < minerals@.len()
            ==> coord_ok((#[trigger] minerals@[j]).pos)
                && minerals@[j].pos.0 >= 0 && minerals@[j].pos.1 >= 0,
        forall|j: int| 0 <= j < geysers@.len()
            ==> coord_ok((#[trigger] geysers@[j]).pos)
                && geysers@[j].pos.0 >= 0 && geysers@[j].pos.1 >= 0,
        minerals@.len() + geysers@.len() <= 100_000,
    ensures
        forall|i: int| 0 <= i < r@.len()
            ==> 0 <= (#[trigger] r@[i]).0 <= 600 && 0 <= r@[i].1 <= 600,
        // every site is a buildable window tile
        forall|i: int| 0 <= i < r@.len()
            ==> window.buildable_at((#[trigger] r@[i]).0 as int, r@[i].1 as int),
        // nearest-first from the start position
        forall|i: int, j: int| 0 <= i < j < r@.len()
            ==> spec_distance_to_depot_edge(#[trigger] r@[i],
                    ((start_tile.0 * 32) as i32, (start_tile.1 * 32) as i32))
                <= spec_distance_to_depot_edge(#[trigger] r@[j],
                    ((start_tile.0 * 32) as i32, (start_tile.1 * 32) as i32)),
{
    let mut all: Vec<ResourceNode> = Vec::new();
    let mut i: usize = 0;
    while i < minerals.len()
        invariant
            i <= minerals@.len(),
            all@.len() == i,
            forall|j: int| 0 <= j < all@.len()
                ==> coord_ok((#[trigger] all@[j]).pos)
                    && all@[j].pos.0 >= 0 && all@[j].pos.1 >= 0,
            forall|j: int| 0 <= j < minerals@.len()
                ==> coord_ok((#[trigger] minerals@[j]).pos)
                    && minerals@[j].pos.0 >= 0 && minerals@[j].pos.1 >= 0,
        decreases minerals@.len() - i,
    {
        all.push(minerals[i]);
        i += 1;
    }
    let mut g: usize = 0;
    while g < geysers.len()
        invariant
            g <= geysers@.len(),
            all@.len() == minerals@.len() + g,
            forall|j: int| 0 <= j < all@.len()
                ==> coord_ok((#[trigger] all@[j]).pos)
                    && all@[j].pos.0 >= 0 && all@[j].pos.1 >= 0,
            forall|j: int| 0 <= j < geysers@.len()
                ==> coord_ok((#[trigger] geysers@[j]).pos)
                    && geysers@[j].pos.0 >= 0 && geysers@[j].pos.1 >= 0,
        decreases geysers@.len() - g,
    {
        all.push(geysers[g]);
        g += 1;
    }

    let clusters = cluster_resources(&all);

    let start_px: (i32, i32) = (start_tile.0 * 32, start_tile.1 * 32);
    let mut sites: Vec<((i32, i32), u64)> = Vec::new();
    let mut ci: usize = 0;
    while ci < clusters.len()
        invariant
            ci <= clusters@.len(),
            window.wf(),
            0 <= start_tile.0 <= 600,
            0 <= start_tile.1 <= 600,
            start_px == ((start_tile.0 * 32) as i32, (start_tile.1 * 32) as i32),
            forall|j: int| 0 <= j < sites@.len()
                ==> 0 <= (#[trigger] sites@[j]).0.0 <= 600 && 0 <= sites@[j].0.1 <= 600
                    && window.buildable_at(sites@[j].0.0 as int, sites@[j].0.1 as int)
                    && sites@[j].1 as int
                        == spec_distance_to_depot_edge(sites@[j].0, start_px),
            forall|cii: int, ri: int| 0 <= cii < clusters@.len()
                && 0 <= ri < (#[trigger] clusters@[cii])@.len()
                ==> is_member(all@, #[trigger] clusters@[cii]@[ri]),
            forall|cii: int| 0 <= cii < clusters@.len()
                ==> (#[trigger] clusters@[cii])@.len() <= all@.len(),
            forall|j: int| 0 <= j < all@.len()
                ==> coord_ok((#[trigger] all@[j]).pos)
                    && all@[j].pos.0 >= 0 && all@[j].pos.1 >= 0,
            all@.len() <= 100_000,
        decreases clusters@.len() - ci,
    {
        let cluster = &clusters[ci];
        proof {
            assert forall|ri: int| 0 <= ri < cluster@.len()
                implies coord_ok((#[trigger] cluster@[ri]).pos)
                    && cluster@[ri].pos.0 >= 0 && cluster@[ri].pos.1 >= 0 by {
                assert(is_member(all@, cluster@[ri]));
                let j = choose|j: int| 0 <= j < all@.len()
                    && #[trigger] all@[j] == cluster@[ri];
            }
        }
        match find_best_depot_location(window, cluster) {
            Some(t) => {
                let d = distance_to_depot_edge(t, start_px);
                sites.push((t, d));
            },
            None => {},
        }
        ci += 1;
    }

    // insertion sort by distance, nearest first
    let mut ordered: Vec<((i32, i32), u64)> = Vec::new();
    let mut si: usize = 0;
    while si < sites.len()
        invariant
            si <= sites@.len(),
            forall|j: int| 0 <= j < sites@.len()
                ==> 0 <= (#[trigger] sites@[j]).0.0 <= 600 && 0 <= sites@[j].0.1 <= 600
                    && window.buildable_at(sites@[j].0.0 as int, sites@[j].0.1 as int)
                    && sites@[j].1 as int
                        == spec_distance_to_depot_edge(sites@[j].0, start_px),
            forall|j: int| 0 <= j < ordered@.len()
                ==> 0 <= (#[trigger] ordered@[j]).0.0 <= 600 && 0 <= ordered@[j].0.1 <= 600
                    && window.buildable_at(ordered@[j].0.0 as int, ordered@[j].0.1 as int)
                    && ordered@[j].1 as int
                        == spec_distance_to_depot_edge(ordered@[j].0, start_px),
            forall|a: int, b: int| 0 <= a < b < ordered@.len()
                ==> (#[trigger] ordered@[a]).1 <= (#[trigger] ordered@[b]).1,
        decreases sites@.len() - si,
    {
        let item = sites[si];
        // find the insertion position
        let mut pos: usize = 0;
        while pos < ordered.len() && ordered[pos].1 <= item.1
            invariant
                pos <= ordered@.len(),
                forall|a: int| 0 <= a < pos ==> (#[trigger] ordered@[a]).1 <= item.1,
            decreases ordered@.len() - pos,
        {
            pos += 1;
        }
        let ghost pre = ordered@;
        ordered.insert(pos, item);
        proof {
            assert(ordered@ =~= pre.subrange(0, pos as int).push(item)
                + pre.subrange(pos as int, pre.len() as int));
            assert forall|a: int, b: int| 0 <= a < b < ordered@.len()
                implies (#[trigger] ordered@[a]).1 <= (#[trigger] ordered@[b]).1 by {
                let a0 = if a < pos { a } else { a - 1 };
                let b0 = if b < pos { b } else { b - 1 };
                if a < pos && b > pos {
                    assert(ordered@[a] == pre[a0] && ordered@[b] == pre[b0]);
                } else if a == pos && b > pos {
                    assert(ordered@[b] == pre[b0]);
                    assert(pre[pos as int].1 > item.1 || pre.len() == pos);
                } else if b == pos {
                    assert(ordered@[a] == pre[a0]);
                }
            }
        }
        si += 1;
    }

    let mut r: Vec<(i32, i32)> = Vec::new();
    let mut oi: usize = 0;
    while oi < ordered.len()
        invariant
            oi <= ordered@.len(),
            r@.len() == oi,
            forall|j: int| 0 <= j < ordered@.len()
                ==> 0 <= (#[trigger] ordered@[j]).0.0 <= 600 && 0 <= ordered@[j].0.1 <= 600
                    && window.buildable_at(ordered@[j].0.0 as int, ordered@[j].0.1 as int)
                    && ordered@[j].1 as int
                        == spec_distance_to_depot_edge(ordered@[j].0, start_px),
            forall|a: int, b: int| 0 <= a < b < ordered@.len()
                ==> (#[trigger] ordered@[a]).1 <= (#[trigger] ordered@[b]).1,
            forall|j: int| 0 <= j < r@.len() ==> #[trigger] r@[j] == ordered@[j].0,
            start_px == ((start_tile.0 * 32) as i32, (start_tile.1 * 32) as i32),
        decreases ordered@.len() - oi,
    {
        r.push(ordered[oi].0);
        oi += 1;
    }
    r
}

} // verus!
