use rustbot::geom::{isqrt, distance_squared, distance, is_point_between, div_i128};
use rustbot::expansion::{closest_point_on_depot, distance_to_depot_edge, cluster_resources};
use rustbot::units::ResourceNode;

#[test]
fn isqrt_exact_values() {
    assert_eq!(isqrt(0), 0);
    assert_eq!(isqrt(1), 1);
    assert_eq!(isqrt(2), 1);
    assert_eq!(isqrt(3), 1);
    assert_eq!(isqrt(4), 2);
    assert_eq!(isqrt(99), 9);
    assert_eq!(isqrt(100), 10);
    assert_eq!(isqrt(10_000_000_000), 100_000);
    assert_eq!(isqrt(u64::MAX as u128), 4_294_967_295);
}

#[test]
fn distance_exact_values() {
    assert_eq!(distance_squared((0, 0), (3, 4)), 25);
    assert_eq!(distance((0, 0), (3, 4)), 5);
    assert_eq!(distance((10, 10), (10, 10)), 0);
    assert_eq!(distance((-3, 0), (0, 4)), 5);
}

#[test]
fn truncating_division() {
    assert_eq!(div_i128(7, 2), 3);
    assert_eq!(div_i128(-7, 2), -3);
    assert_eq!(div_i128(0, 5), 0);
    assert_eq!(div_i128(-1, 1000), 0);
}

/// The point-to-segment projection: a point on the line within tolerance is
/// between; one past the endpoints or too far off the line is not.
#[test]
fn point_between_projection() {
    // the segment runs from (0,0) to (200,0)
    assert!(is_point_between(0, 0, 200, 0, 100, 10, 32));
    assert!(!is_point_between(0, 0, 200, 0, 100, 50, 32)); // too far off
    assert!(!is_point_between(0, 0, 200, 0, 300, 0, 32)); // past the end
    assert!(!is_point_between(0, 0, 200, 0, -50, 0, 32)); // before the start
    assert!(!is_point_between(0, 0, 0, 0, 10, 10, 32)); // degenerate segment
}

/// The depot footprint is four by three tiles; the clamp finds its closest
/// edge point and the distance is measured from there.
#[test]
fn depot_edge_distance() {
    // depot at tile (0, 0): footprint spans pixels (0,0) to (128,96)
    assert_eq!(closest_point_on_depot((0, 0), (200, 48)), (128, 48));
    assert_eq!(distance_to_depot_edge((0, 0), (200, 48)), 72);
    // a point inside the footprint has distance zero
    assert_eq!(distance_to_depot_edge((0, 0), (64, 48)), 0);
}

fn patch(id: usize, pos: (i32, i32)) -> ResourceNode {
    ResourceNode { id, pos, amount: 1500, is_gas: false, exists: true }
}

/// Resources within nine tiles of one another cluster together; distant
/// groups split.
#[test]
fn clustering_splits_distant_groups() {
    let resources = vec![
        patch(1, (100, 100)),
        patch(2, (150, 100)),
        patch(3, (5000, 5000)),
        patch(4, (5050, 5000)),
    ];
    let clusters = cluster_resources(&resources);
    assert_eq!(clusters.len(), 2);
    let mut sizes: Vec<usize> = clusters.iter().map(|c| c.len()).collect();
    sizes.sort();
    assert_eq!(sizes, vec![2, 2]);
}

/// The best depot site avoids standing on top of the resources and is
/// buildable.
#[test]
fn depot_site_clears_resources() {
    let window = rustbot::build_location::BuildWindow::new(
        (0, 0), 40, 40, vec![true; 1600]);
    let cluster = vec![patch(1, (320, 320)), patch(2, (384, 320))];
    let t = rustbot::expansion::find_best_depot_location(&window, &cluster).unwrap();
    // the chosen tile's footprint keeps the minimum spacing from both patches
    for p in [&cluster[0], &cluster[1]] {
        let d = distance_to_depot_edge(t, p.pos);
        assert!(d >= 128, "site too close: {} from {:?}", d, p.pos);
    }
}

/// Expansion sites come back nearest-first from the start.
#[test]
fn base_locations_ordered_nearest_first() {
    let window = rustbot::build_location::BuildWindow::new(
        (0, 0), 200, 200, vec![true; 40_000]);
    let minerals = vec![
        patch(1, (400, 400)),
        patch(2, (430, 400)),
        patch(3, (4000, 4000)),
        patch(4, (4030, 4000)),
    ];
    let geysers: Vec<ResourceNode> = Vec::new();
    let bases = rustbot::expansion::get_base_locations_ordered(
        &window, &minerals, &geysers, (10, 10));
    assert_eq!(bases.len(), 2);
    let d0 = distance_to_depot_edge(bases[0], (10 * 32, 10 * 32));
    let d1 = distance_to_depot_edge(bases[1], (10 * 32, 10 * 32));
    assert!(d0 <= d1);
}

/// The location scorer penalizes a tile on the depot-to-mineral line far
/// more than one beside it.
#[test]
fn scoring_penalizes_mineral_line() {
    let depots = vec![(320, 320)];
    let minerals = vec![patch(1, (560, 320))];
    let geysers: Vec<ResourceNode> = Vec::new();
    // tile (13, 10): center (432, 336) sits on the depot-mineral line
    let blocking = rustbot::build_location::score_build_location(
        (13, 10), &depots, &minerals, &geysers);
    // tile (13, 16): center (432, 528) sits well off the line, same distance band
    let clear = rustbot::build_location::score_build_location(
        (13, 16), &depots, &minerals, &geysers);
    assert!(blocking < clear);
}
