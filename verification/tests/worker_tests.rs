use rustbot::ledger::{IdMap, WorkerAssignment, WorkerAssignmentType};
use rustbot::units::{OwnUnit, UnitKind, UpgradeKind, OrderKind, ResourceNode};

fn drone(id: usize, idle: bool) -> OwnUnit {
    OwnUnit {
        id,
        pos: (100, 100),
        kind: UnitKind::Drone,
        is_completed: true,
        is_idle: idle,
        is_constructing: false,
        is_gathering: false,
        is_morphing: false,
        is_upgrading: false,
        upgrade_in_progress: UpgradeKind::Other,
        build_type: UnitKind::Other,
        order: OrderKind::Other,
        order_target: None,
        order_target_position: None,
    }
}

fn extractor(id: usize, pos: (i32, i32)) -> OwnUnit {
    let mut u = drone(id, false);
    u.kind = UnitKind::Extractor;
    u.pos = pos;
    u
}

fn mineral(id: usize, pos: (i32, i32)) -> ResourceNode {
    ResourceNode { id, pos, amount: 1500, is_gas: false, exists: true }
}

/// Records of vanished workers are purged within one tick; building records
/// survive the drone's morph into a structure.
#[test]
fn purge_keeps_building_records_only() {
    let mut assignments: IdMap<WorkerAssignment> = IdMap::new();
    assignments.insert(1, WorkerAssignment::gathering(100)); // worker 1 is dead
    assignments.insert(2, WorkerAssignment::building(None, (10, 10), 4)); // dead too
    assignments.insert(3, WorkerAssignment::gathering(100)); // worker 3 lives
    let workers = vec![drone(3, false)];
    rustbot::worker_alloc::remove_dead_workers(&mut assignments, &workers);
    assert!(!assignments.contains_key(1));
    assert!(assignments.contains_key(2)); // the building record survives
    assert!(assignments.contains_key(3));
}

/// Every worker id in the ledger maps to exactly one record: inserting twice
/// replaces, never duplicates.
#[test]
fn ledger_maps_each_id_once() {
    let mut assignments: IdMap<WorkerAssignment> = IdMap::new();
    assignments.insert(1, WorkerAssignment::gathering(100));
    assignments.insert(1, WorkerAssignment::gathering(200));
    assert_eq!(assignments.len(), 1);
    let a = assignments.get(1).unwrap();
    assert_eq!(a.target_unit, Some(200));
}

/// The allocator prefers any patch under two workers over one at two or
/// more, and never pushes a patch past three.
#[test]
fn allocator_prefers_undersaturated_patch() {
    let mut assignments: IdMap<WorkerAssignment> = IdMap::new();
    // patch 100 already has two gatherers, patch 200 has one
    assignments.insert(1, WorkerAssignment::gathering(100));
    assignments.insert(2, WorkerAssignment::gathering(100));
    assignments.insert(3, WorkerAssignment::gathering(200));
    let minerals = vec![mineral(100, (60, 60)), mineral(200, (90, 90))];
    let ix = rustbot::worker_alloc::select_mineral_for_worker(&minerals, &assignments)
        .unwrap();
    assert_eq!(minerals[ix].id, 200);
}

/// With every patch at two, the cap relaxes to three.
#[test]
fn allocator_relaxes_cap_to_three() {
    let mut assignments: IdMap<WorkerAssignment> = IdMap::new();
    assignments.insert(1, WorkerAssignment::gathering(100));
    assignments.insert(2, WorkerAssignment::gathering(100));
    assignments.insert(3, WorkerAssignment::gathering(200));
    assignments.insert(4, WorkerAssignment::gathering(200));
    let minerals = vec![mineral(100, (60, 60)), mineral(200, (90, 90))];
    let ix = rustbot::worker_alloc::select_mineral_for_worker(&minerals, &assignments)
        .unwrap();
    let count = rustbot::worker_alloc::count_workers_at(&assignments, minerals[ix].id);
    assert!(count < 3);
}

/// With every patch at three, no patch is offered at all.
#[test]
fn allocator_refuses_past_three() {
    let mut assignments: IdMap<WorkerAssignment> = IdMap::new();
    for w in 0..3usize {
        assignments.insert(w, WorkerAssignment::gathering(100));
    }
    let minerals = vec![mineral(100, (60, 60))];
    let r = rustbot::worker_alloc::select_mineral_for_worker(&minerals, &assignments);
    assert!(r.is_none());
}

/// One tick of the allocator assigns idle unassigned workers to patches near
/// the main base and leaves per-patch saturation at most three.
#[test]
fn update_assignments_sweeps_idle_workers() {
    let mut assignments: IdMap<WorkerAssignment> = IdMap::new();
    let my_units = vec![
        drone(1, true),
        drone(2, true),
        drone(3, true),
        drone(4, true),
    ];
    // the main base sits at tile (2, 2); patches nearby
    let minerals = vec![mineral(100, (80, 80)), mineral(200, (120, 80))];
    let base_locations = vec![(2, 2)];
    let build_order: Vec<rustbot::build_order::BuildOrderItem> = Vec::new();
    rustbot::worker_alloc::update_assignments(
        &my_units, &minerals, &base_locations, &build_order, 0, 4096, 4096,
        &mut assignments);
    // all four idle workers got records
    for w in 1..=4usize {
        assert!(assignments.contains_key(w));
    }
    // the saturation cap holds on every patch
    assert!(rustbot::worker_alloc::count_workers_at(&assignments, 100) <= 3);
    assert!(rustbot::worker_alloc::count_workers_at(&assignments, 200) <= 3);
    // preference filled both patches to two before any third
    assert_eq!(rustbot::worker_alloc::count_workers_at(&assignments, 100), 2);
    assert_eq!(rustbot::worker_alloc::count_workers_at(&assignments, 200), 2);
}

/// A worker that fits nowhere falls back to a scouting record, the
/// non-blocking degraded behavior.
#[test]
fn update_assignments_scouting_fallback() {
    let mut assignments: IdMap<WorkerAssignment> = IdMap::new();
    let my_units = vec![drone(1, true)];
    let minerals: Vec<ResourceNode> = Vec::new();
    let base_locations = vec![(2, 2)];
    let build_order: Vec<rustbot::build_order::BuildOrderItem> = Vec::new();
    rustbot::worker_alloc::update_assignments(
        &my_units, &minerals, &base_locations, &build_order, 0, 4096, 4096,
        &mut assignments);
    let a = assignments.get(1).unwrap();
    assert_eq!(a.assignment_type, WorkerAssignmentType::Scouting);
    let (tx, ty) = a.target_position.unwrap();
    assert!(tx >= 0 && tx < 4096);
    assert!(ty >= 0 && ty < 4096);
}

/// An under-saturated extractor takes priority for newly idle workers.
#[test]
fn extractor_takes_priority_for_idle_workers() {
    let mut assignments: IdMap<WorkerAssignment> = IdMap::new();
    let mut my_units = vec![drone(1, true)];
    my_units.push(extractor(500, (90, 90)));
    let minerals = vec![mineral(100, (80, 80))];
    let base_locations = vec![(2, 2)];
    let build_order: Vec<rustbot::build_order::BuildOrderItem> = Vec::new();
    rustbot::worker_alloc::update_assignments(
        &my_units, &minerals, &base_locations, &build_order, 0, 4096, 4096,
        &mut assignments);
    let a = assignments.get(1).unwrap();
    assert_eq!(a.target_unit, Some(500));
}

/// An unreachable-resource rejection reassigns the worker to an alternative
/// same-class resource rather than retrying the same target.
#[test]
fn unreachable_target_reassigns_elsewhere() {
    let mut assignments: IdMap<WorkerAssignment> = IdMap::new();
    assignments.insert(1, WorkerAssignment::gathering(100));
    let minerals = vec![mineral(200, (90, 90)), mineral(300, (120, 90))];
    let extractors: Vec<OwnUnit> = Vec::new();
    let changed = rustbot::worker_alloc::assign_worker_to_other_resource(
        1, &mut assignments, &minerals, &extractors);
    assert!(changed);
    let a = assignments.get(1).unwrap();
    let t = a.target_unit.unwrap();
    assert!(t == 200 || t == 300);
    assert_ne!(t, 100);
}

/// The gathering enforcement re-issues the gather for a worker standing
/// around, and leaves a returning worker alone.
#[test]
fn gathering_enforcement_reissues_on_idle_orders() {
    let grid = rustbot::pathfinder::WalkGrid::new(64, 64, vec![true; 64 * 64]);
    let mut w = drone(1, false);
    w.order = OrderKind::PlayerGuard;
    let cmd = rustbot::worker_alloc::enforce_gathering_assignment(&grid, &w, 100, true);
    assert_eq!(cmd, rustbot::worker_alloc::WorkerCommand::Gather(100));

    w.order = OrderKind::ReturnMinerals;
    let cmd = rustbot::worker_alloc::enforce_gathering_assignment(&grid, &w, 100, true);
    assert_eq!(cmd, rustbot::worker_alloc::WorkerCommand::NoAction);
}

/// A worker harvesting the wrong node is redirected to its recorded one.
#[test]
fn gathering_enforcement_corrects_wrong_target() {
    let grid = rustbot::pathfinder::WalkGrid::new(64, 64, vec![true; 64 * 64]);
    let mut w = drone(1, false);
    w.order = OrderKind::MiningMinerals;
    w.order_target = Some(999);
    let cmd = rustbot::worker_alloc::enforce_gathering_assignment(&grid, &w, 100, true);
    assert_eq!(cmd, rustbot::worker_alloc::WorkerCommand::Gather(100));

    w.order_target = Some(100);
    let cmd = rustbot::worker_alloc::enforce_gathering_assignment(&grid, &w, 100, true);
    assert_eq!(cmd, rustbot::worker_alloc::WorkerCommand::NoAction);
}

/// The building enforcement waits on short funds, explores an unconfirmed
/// spot, and places once the spot reads buildable.
#[test]
fn building_enforcement_places_when_ready() {
    let window = rustbot::build_location::BuildWindow::new(
        (0, 0), 32, 32, vec![true; 32 * 32]);
    let depots: Vec<(i32, i32)> = Vec::new();
    let minerals: Vec<ResourceNode> = Vec::new();
    let geysers: Vec<ResourceNode> = Vec::new();
    let base_locations = vec![(2, 2)];
    let mut w = drone(1, false);
    w.order = OrderKind::Other;
    let mut a = WorkerAssignment::building(None, (5, 5), 0);

    // short funds: wait
    let poor = rustbot::units::PlayerInfo {
        minerals: 0, gas: 0, supply_total: 18, supply_used: 9 };
    let cmd = rustbot::worker_alloc::enforce_building_assignment(
        &w, &mut a, UnitKind::SpawningPool, None, &base_locations, &poor,
        &window, &depots, &minerals, &geysers);
    assert_eq!(cmd, rustbot::worker_alloc::WorkerCommand::NoAction);

    // funded and confirmed: place the structure at the recorded tile
    let rich = rustbot::units::PlayerInfo {
        minerals: 1000, gas: 1000, supply_total: 18, supply_used: 9 };
    let cmd = rustbot::worker_alloc::enforce_building_assignment(
        &w, &mut a, UnitKind::SpawningPool, None, &base_locations, &rich,
        &window, &depots, &minerals, &geysers);
    assert_eq!(cmd, rustbot::worker_alloc::WorkerCommand::Build(
        UnitKind::SpawningPool, 5, 5));
}

/// A worker already constructing receives nothing.
#[test]
fn building_enforcement_leaves_constructing_worker() {
    let window = rustbot::build_location::BuildWindow::new(
        (0, 0), 8, 8, vec![true; 64]);
    let base_locations = vec![(2, 2)];
    let mut w = drone(1, false);
    w.order = OrderKind::ConstructingBuilding;
    let mut a = WorkerAssignment::building(None, (5, 5), 0);
    let rich = rustbot::units::PlayerInfo {
        minerals: 1000, gas: 1000, supply_total: 18, supply_used: 9 };
    let cmd = rustbot::worker_alloc::enforce_building_assignment(
        &w, &mut a, UnitKind::SpawningPool, None, &base_locations, &rich,
        &window, &Vec::new(), &Vec::new(), &Vec::new());
    assert_eq!(cmd, rustbot::worker_alloc::WorkerCommand::NoAction);
}
