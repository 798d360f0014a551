use rustbot::state::{GameState, DebugFlag};
use rustbot::status::{generate_map_svg, update_worker_stats, MapData, append_decimal};
use rustbot::units::{OwnUnit, UnitKind, UpgradeKind, OrderKind};

/// A fresh match starts with the cursor at zero, the default speed and the
/// usual overlays.
#[test]
fn fresh_state_defaults() {
    let s = GameState::default();
    assert_eq!(s.build_order_index, 0);
    assert_eq!(s.game_speed, -1);
    assert!(s.build_order.len() > 0);
    assert!(s.has_debug_flag(DebugFlag::ShowWorkerAssignments));
    assert!(s.has_debug_flag(DebugFlag::ShowMilitaryAssignments));
    assert!(s.has_debug_flag(DebugFlag::ShowPathToEnemyBase));
    assert!(!s.has_debug_flag(DebugFlag::ShowRegions));
}

/// Only the exact speed command changes the speed; it is a validated
/// integer write.
#[test]
fn speed_command_is_validated() {
    let mut s = GameState::default();
    s.apply_game_speed_command(&"set_game_speed".to_owned(), 42);
    assert_eq!(s.game_speed, 42);
    s.apply_game_speed_command(&"something_else".to_owned(), 7);
    assert_eq!(s.game_speed, 42);
}

/// Replacing the overlay set is a whole-set replace, duplicates dropped.
#[test]
fn debug_flags_whole_set_replace() {
    let mut s = GameState::default();
    s.set_debug_flags(vec![DebugFlag::ShowRegions, DebugFlag::ShowRegions]);
    assert!(s.has_debug_flag(DebugFlag::ShowRegions));
    assert!(!s.has_debug_flag(DebugFlag::ShowWorkerAssignments));
    assert_eq!(s.debug_flags.len(), 1);
}

fn counted_unit(id: usize, idle: bool, gathering: bool, constructing: bool) -> OwnUnit {
    OwnUnit {
        id,
        pos: (0, 0),
        kind: UnitKind::Drone,
        is_completed: true,
        is_idle: idle,
        is_constructing: constructing,
        is_gathering: gathering,
        is_morphing: false,
        is_upgrading: false,
        upgrade_in_progress: UpgradeKind::Other,
        build_type: UnitKind::Other,
        order: OrderKind::Other,
        order_target: None,
        order_target_position: None,
    }
}

/// The worker counters tally total, gathering, idle and constructing drones.
#[test]
fn worker_stats_tally() {
    let mut units = vec![
        counted_unit(1, true, false, false),
        counted_unit(2, false, true, false),
        counted_unit(3, false, true, false),
        counted_unit(4, false, false, true),
    ];
    let mut overlord = counted_unit(5, true, false, false);
    overlord.kind = UnitKind::Overlord;
    units.push(overlord);
    let ws = update_worker_stats(&units);
    assert_eq!(ws.total, 4);
    assert_eq!(ws.gathering, 2);
    assert_eq!(ws.idle, 1);
    assert_eq!(ws.building, 1);
}

/// Decimal rendering is exact.
#[test]
fn decimal_rendering() {
    let mut s = String::new();
    append_decimal(&mut s, 0);
    assert_eq!(s, "0");
    let mut s = String::new();
    append_decimal(&mut s, 1234567890);
    assert_eq!(s, "1234567890");
}

/// An empty raster renders the empty image; a populated one opens and
/// closes the image tags and mentions its content.
#[test]
fn svg_rendering_shape() {
    let empty = MapData::default();
    assert_eq!(generate_map_svg(&empty), "<svg></svg>");

    let map = MapData {
        width: 4,
        height: 4,
        walkability: vec![vec![true; 4]; 4],
        explored: vec![vec![true; 4]; 4],
        units: vec![rustbot::status::UnitInfo {
            x: 16, y: 16, unit_type: "drone".to_owned(), is_ally: true }],
        resources: vec![rustbot::status::ResourceInfo {
            x: 8, y: 8, is_gas: false, amount: 1500 }],
    };
    let svg = generate_map_svg(&map);
    assert!(svg.starts_with("<svg"));
    assert!(svg.ends_with("</svg>"));
    assert!(svg.contains("width=\"12\"")); // four tiles at three pixels each
    assert!(svg.contains("#2a4a2a")); // walkable explored terrain
    assert!(svg.contains("#00FFFF")); // the mineral dot
    assert!(svg.contains("#0000FF")); // the allied unit dot
}

/// Snapshots mirror the state exactly.
#[test]
fn snapshots_mirror_state() {
    let mut s = GameState::default();
    s.larva_responsibilities.insert(5, 0);
    s.worker_assignments
        .insert(9, rustbot::ledger::WorkerAssignment::gathering(100));
    let larvae = rustbot::status::larvae_snapshot(&s, 7);
    assert_eq!(larvae.frame_count, 7);
    assert_eq!(larvae.larva_responsibilities, vec![(5, 0)]);
    let ws = rustbot::status::worker_status_snapshot(&s, 8);
    assert_eq!(ws.frame_count, 8);
    assert_eq!(ws.worker_assignments.len(), 1);
    assert_eq!(ws.worker_assignments[0].0, 9);
    let speed = rustbot::status::game_speed_snapshot(&s, 9);
    assert_eq!(speed.game_speed, -1);
    let flags = rustbot::status::debug_flags_snapshot(&s, 10);
    assert_eq!(flags.debug_flags.len(), 3);
}

/// Unit kind knowledge: costs, builders and classification.
#[test]
fn tech_tree_tables() {
    assert_eq!(rustbot::units::mineral_price(UnitKind::Drone), 50);
    assert_eq!(rustbot::units::mineral_price(UnitKind::Hatchery), 300);
    assert_eq!(rustbot::units::gas_price(UnitKind::Lair), 100);
    assert!(rustbot::units::is_building(UnitKind::SpawningPool));
    assert!(!rustbot::units::is_building(UnitKind::Zergling));
    assert_eq!(rustbot::units::what_builds(UnitKind::Drone), UnitKind::Larva);
    assert_eq!(rustbot::units::what_builds(UnitKind::SpawningPool), UnitKind::Drone);
    assert_eq!(rustbot::units::what_builds(UnitKind::Lair), UnitKind::Hatchery);
    assert_eq!(
        rustbot::units::what_upgrades(UpgradeKind::MetabolicBoost),
        UnitKind::SpawningPool
    );
    assert!(rustbot::units::is_resource_depot(UnitKind::Hatchery));
    assert!(!rustbot::units::is_resource_depot(UnitKind::Extractor));
}

/// The producer enforcement issues a morph only when the committed producer
/// is observed ready and funds allow.
#[test]
fn producer_enforcement_morphs_when_ready() {
    let mut s = GameState::default();
    s.build_order = vec![rustbot::build_order::BuildOrderItem::unit(UnitKind::Lair)];
    s.build_order_index = 0;
    s.building_assignments
        .insert(30, rustbot::ledger::BuildingAssignment::new(UnitKind::Lair, 0));
    let mut hatch = counted_unit(30, false, false, false);
    hatch.kind = UnitKind::Hatchery;
    let units = vec![hatch];
    let rich = rustbot::units::PlayerInfo {
        minerals: 1000, gas: 1000, supply_total: 18, supply_used: 9 };
    let cmd = rustbot::state::enforce_structure_assignment(&s, &units, &rich);
    assert_eq!(cmd, rustbot::state::ProducerCommand::Morph(30, UnitKind::Lair));

    let poor = rustbot::units::PlayerInfo {
        minerals: 10, gas: 0, supply_total: 18, supply_used: 9 };
    let cmd = rustbot::state::enforce_structure_assignment(&s, &units, &poor);
    assert_eq!(cmd, rustbot::state::ProducerCommand::Wait);
}
