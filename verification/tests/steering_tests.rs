use rustbot::pathfinder::WalkGrid;
use rustbot::steering::{
    calculate_threat_avoidance_move, ThreatAvoidanceMode, get_threats_with_range_awareness,
    should_reissue_move_command,
};
use rustbot::units::EnemyUnit;

fn flat_grid(w: usize, h: usize) -> WalkGrid {
    WalkGrid::new(w, h, vec![true; w * h])
}

fn hostile(id: usize, pos: (i32, i32), ground_range: i32) -> EnemyUnit {
    EnemyUnit {
        id,
        pos,
        is_building: false,
        is_completed: true,
        is_worker: false,
        is_drone: false,
        is_healer: false,
        is_static_defense: false,
        is_egg_or_larva: false,
        has_ground_weapon: true,
        has_air_weapon: false,
        ground_range,
        air_range: 0,
        is_visible: true,
    }
}

/// Identical unit position, threat set and mode weights produce an identical
/// move point.
#[test]
fn steering_is_deterministic() {
    let grid = flat_grid(128, 128);
    let threats = vec![(400, 300), (420, 330), (390, 350)];
    let target = Some((800, 800));
    let w = ThreatAvoidanceMode::Kiting.weights();
    let a = calculate_threat_avoidance_move(&grid, (350, 320), &threats, target, w);
    let b = calculate_threat_avoidance_move(&grid, (350, 320), &threats, target, w);
    assert_eq!(a, b);
    assert!(a.is_some());
}

/// The returned move point always satisfies walkability directly.
#[test]
fn steering_move_is_walkable() {
    let grid = flat_grid(128, 128);
    let threats = vec![(400, 300)];
    for mode in [
        ThreatAvoidanceMode::Evasive,
        ThreatAvoidanceMode::Kiting,
        ThreatAvoidanceMode::Aggressive,
    ] {
        let w = mode.weights();
        if let Some(p) = calculate_threat_avoidance_move(
            &grid, (350, 320), &threats, Some((800, 800)), w) {
            assert!(grid.is_walkable_px(p.0, p.1));
        }
    }
}

/// When the blended point lands on unwalkable ground, the ring search still
/// returns a walkable point.
#[test]
fn steering_ring_search_finds_walkable_fallback() {
    // walkable map with an unwalkable pocket where the flee vector lands
    let w = 128usize;
    let h = 128usize;
    let mut cells = vec![true; w * h];
    // the unit at (350, 320) flees a threat at (400, 320): the candidate
    // lands left of the unit; block a tile there but not its surroundings
    let block_px = (350 - 90, 320);
    let bx = (block_px.0 / 8) as usize;
    let by = (block_px.1 / 8) as usize;
    cells[by * w + bx] = false;
    let grid = WalkGrid::new(w, h, cells);
    let threats = vec![(400, 320)];
    let weights = ThreatAvoidanceMode::Evasive.weights();
    if let Some(p) = calculate_threat_avoidance_move(
        &grid, (350, 320), &threats, None, weights) {
        assert!(grid.is_walkable_px(p.0, p.1));
    } else {
        panic!("a walkable point must exist on a nearly open map");
    }
}

/// No relevant threat yields no move at all.
#[test]
fn steering_without_threats_yields_nothing() {
    let grid = flat_grid(64, 64);
    let threats: Vec<(i32, i32)> = Vec::new();
    let w = ThreatAvoidanceMode::Evasive.weights();
    assert!(calculate_threat_avoidance_move(&grid, (100, 100), &threats, None, w).is_none());
}

/// Threat detection scales with weapon range: a melee hostile threatens only
/// close by, a ranged one from afar; unarmed and unfinished ones never do.
#[test]
fn threat_detection_scales_with_range() {
    let pos = (1000, 1000);
    // melee hostile 100 pixels away: outside its 60 pixel melee threat radius
    let melee_far = hostile(1, (1100, 1000), 16);
    assert_eq!(get_threats_with_range_awareness(&vec![melee_far], pos).len(), 0);
    // melee hostile 40 pixels away: inside
    let melee_near = hostile(2, (1040, 1000), 16);
    assert_eq!(get_threats_with_range_awareness(&vec![melee_near], pos).len(), 1);
    // ranged hostile 220 pixels away with range 128: inside range + 100
    let ranged = hostile(3, (1220, 1000), 128);
    assert_eq!(get_threats_with_range_awareness(&vec![ranged], pos).len(), 1);
    // unarmed onlooker right next to the unit: never a threat
    let mut unarmed = hostile(4, (1010, 1000), 0);
    unarmed.has_ground_weapon = false;
    assert_eq!(get_threats_with_range_awareness(&vec![unarmed], pos).len(), 0);
    // an unfinished structure is ignored
    let mut turret = hostile(5, (1040, 1000), 128);
    turret.is_building = true;
    turret.is_completed = false;
    assert_eq!(get_threats_with_range_awareness(&vec![turret], pos).len(), 0);
    // everything beyond the overall detection radius is ignored
    let far = hostile(6, (1000 + 400, 1000), 9000);
    assert_eq!(get_threats_with_range_awareness(&vec![far], pos).len(), 0);
}

/// A move command is re-issued when the unit is not moving, is about to
/// arrive, or heads the wrong way -- and withheld when the heading is close.
#[test]
fn reissue_only_on_divergence() {
    let unit = (1000, 1000);
    // not moving: issue
    assert!(should_reissue_move_command(unit, false, None, (1200, 1000)));
    // moving without a target: issue
    assert!(should_reissue_move_command(unit, true, None, (1200, 1000)));
    // about to arrive: issue to prevent deceleration
    assert!(should_reissue_move_command(unit, true, Some((1030, 1000)), (1200, 1000)));
    // heading the same way: hold
    assert!(!should_reissue_move_command(
        unit, true, Some((1400, 1000)), (1300, 1000)));
    // heading the opposite way: issue
    assert!(should_reissue_move_command(
        unit, true, Some((600, 1000)), (1300, 1000)));
}

/// The three weight profiles are distinct and fixed.
#[test]
fn weight_profiles() {
    let e = ThreatAvoidanceMode::Evasive.weights();
    assert_eq!((e.backward, e.lateral, e.target_milli), (90, 60, 0));
    let k = ThreatAvoidanceMode::Kiting.weights();
    assert_eq!((k.backward, k.lateral, k.target_milli), (30, 65, 50));
    let a = ThreatAvoidanceMode::Aggressive.weights();
    assert_eq!((a.backward, a.lateral, a.target_milli), (10, 60, 10_000));
}

/// Evasive steering moves the unit away from the mean threat position.
#[test]
fn evasive_steering_retreats() {
    let grid = flat_grid(128, 128);
    let threats = vec![(500, 400)];
    let w = ThreatAvoidanceMode::Evasive.weights();
    let p = calculate_threat_avoidance_move(&grid, (400, 400), &threats, None, w).unwrap();
    // the threat stands east; the move point must not step toward it
    assert!(p.0 <= 400);
}
