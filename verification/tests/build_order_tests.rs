use rustbot::build_order::BuildOrderItem;
use rustbot::ledger::IdMap;
use rustbot::state::{GameState, BuildOrderAction};
use rustbot::units::{OwnUnit, UnitKind, UpgradeKind, OrderKind, PlayerInfo};

fn unit_of(id: usize, kind: UnitKind, pos: (i32, i32)) -> OwnUnit {
    OwnUnit {
        id,
        pos,
        kind,
        is_completed: true,
        is_idle: true,
        is_constructing: false,
        is_gathering: false,
        is_morphing: false,
        is_upgrading: false,
        upgrade_in_progress: UpgradeKind::Other,
        build_type: UnitKind::Other,
        order: OrderKind::Other,
        order_target: None,
        order_target_position: None,
    }
}

fn incomplete_unit_of(id: usize, kind: UnitKind, pos: (i32, i32)) -> OwnUnit {
    let mut u = unit_of(id, kind, pos);
    u.is_completed = false;
    u
}

fn rich_player() -> PlayerInfo {
    PlayerInfo { minerals: 10_000, gas: 10_000, supply_total: 18, supply_used: 9 }
}

fn opening_five() -> Vec<BuildOrderItem> {
    vec![
        BuildOrderItem::unit(UnitKind::Drone),
        BuildOrderItem::unit(UnitKind::Drone),
        BuildOrderItem::unit(UnitKind::Overlord),
        BuildOrderItem::unit(UnitKind::Drone),
        BuildOrderItem::unit(UnitKind::SpawningPool),
    ]
}

/// With one idle larva and sufficient minerals the larva is committed to the
/// first item; when that larva disappears the cursor advances; this repeats
/// through the queue, a structure item commits a drone instead, and the
/// cursor passes it only once the structure is observed under construction.
#[test]
fn scenario_opening_progression() {
    let mut state = GameState::default();
    state.build_order = opening_five();
    state.build_order_index = 0;
    // a drone gathering from patch 100 so a builder can be chosen
    state
        .worker_assignments
        .insert(50, rustbot::ledger::WorkerAssignment::gathering(100));
    let player = rich_player();

    // tick 1: larva 1 is committed to index 0 and trains a drone
    let units = vec![unit_of(1, UnitKind::Larva, (64, 64))];
    let action = rustbot::state::build_order_onframe(&mut state, &units, &player);
    assert_eq!(action, BuildOrderAction::TrainFromLarva(1, UnitKind::Drone));
    assert_eq!(state.build_order_index, 0);

    // tick 2: larva 1 disappeared (it morphed), so the cursor advances to 1,
    // and the fresh larva 2 is committed
    let units = vec![unit_of(2, UnitKind::Larva, (64, 64))];
    let action = rustbot::state::build_order_onframe(&mut state, &units, &player);
    assert_eq!(state.build_order_index, 1);
    assert_eq!(action, BuildOrderAction::TrainFromLarva(2, UnitKind::Drone));

    // ticks 3 and 4: the overlord and the next drone
    let units = vec![unit_of(3, UnitKind::Larva, (64, 64))];
    let action = rustbot::state::build_order_onframe(&mut state, &units, &player);
    assert_eq!(state.build_order_index, 2);
    assert_eq!(action, BuildOrderAction::TrainFromLarva(3, UnitKind::Overlord));
    let units = vec![unit_of(4, UnitKind::Larva, (64, 64))];
    let action = rustbot::state::build_order_onframe(&mut state, &units, &player);
    assert_eq!(state.build_order_index, 3);
    assert_eq!(action, BuildOrderAction::TrainFromLarva(4, UnitKind::Drone));

    // tick 5: the cursor reaches the structure; a drone, not a larva, is
    // committed to build it
    let units = vec![unit_of(5, UnitKind::Larva, (64, 64)), unit_of(50, UnitKind::Drone, (70, 70))];
    let action = rustbot::state::build_order_onframe(&mut state, &units, &player);
    assert_eq!(state.build_order_index, 4);
    assert_eq!(action, BuildOrderAction::Wait);
    assert!(state.worker_assignments.contains_key(50));

    // the cursor holds at the structure while nothing is under construction
    let units = vec![unit_of(5, UnitKind::Larva, (64, 64)), unit_of(50, UnitKind::Drone, (70, 70))];
    rustbot::state::build_order_onframe(&mut state, &units, &player);
    assert_eq!(state.build_order_index, 4);

    // once a pool is observed under construction and the committed drone is
    // gone (it morphed into the structure), the cursor advances
    let units = vec![
        unit_of(5, UnitKind::Larva, (64, 64)),
        incomplete_unit_of(60, UnitKind::SpawningPool, (70, 70)),
    ];
    rustbot::state::build_order_onframe(&mut state, &units, &player);
    assert_eq!(state.build_order_index, 5);
}

/// The cursor never moves backward and never exceeds the queue across ticks.
#[test]
fn cursor_monotone_and_bounded() {
    let mut state = GameState::default();
    state.build_order = opening_five();
    state.build_order_index = 0;
    let player = rich_player();
    let mut last = 0usize;
    for tick in 0..10usize {
        let units = vec![unit_of(100 + tick, UnitKind::Larva, (64, 64))];
        rustbot::state::build_order_onframe(&mut state, &units, &player);
        assert!(state.build_order_index >= last);
        assert!(state.build_order_index <= state.build_order.len());
        last = state.build_order_index;
    }
}

/// A stale commitment for an already-passed index never re-advances the
/// cursor: only an index equal to the cursor does.
#[test]
fn stale_commitment_does_not_advance() {
    let mut resp: IdMap<usize> = IdMap::new();
    resp.insert(7, 0); // a commitment recorded at a long-passed index
    let mut cursor: usize = 3;
    let live: Vec<usize> = Vec::new(); // larva 7 is gone
    rustbot::build_order::advance_build_order_for_morphed_larvae(
        &live, &mut resp, 5, &mut cursor);
    assert_eq!(cursor, 3);
    assert!(!resp.contains_key(7));
}

/// A commitment recorded at the cursor advances it by one when the larva
/// vanishes.
#[test]
fn matching_commitment_advances_once() {
    let mut resp: IdMap<usize> = IdMap::new();
    resp.insert(7, 3);
    let mut cursor: usize = 3;
    let live: Vec<usize> = Vec::new();
    rustbot::build_order::advance_build_order_for_morphed_larvae(
        &live, &mut resp, 5, &mut cursor);
    assert_eq!(cursor, 4);
}

/// A commitment whose larva still exists is kept and advances nothing.
#[test]
fn living_commitment_is_kept() {
    let mut resp: IdMap<usize> = IdMap::new();
    resp.insert(7, 3);
    let mut cursor: usize = 3;
    let live: Vec<usize> = vec![7];
    rustbot::build_order::advance_build_order_for_morphed_larvae(
        &live, &mut resp, 5, &mut cursor);
    assert_eq!(cursor, 3);
    assert!(resp.contains_key(7));
}

/// Past the end of the queue, low supply queues a supply unit.
#[test]
fn fallback_queues_supply_on_low_headroom() {
    let player = PlayerInfo { minerals: 1000, gas: 0, supply_total: 18, supply_used: 17 };
    let units = vec![unit_of(1, UnitKind::Drone, (0, 0))];
    let mut bo: Vec<BuildOrderItem> = Vec::new();
    rustbot::build_order::figure_out_what_to_build(&player, &units, &mut bo);
    assert_eq!(bo.len(), 1);
    match &bo[0] {
        BuildOrderItem::Unit { unit_type, .. } => assert_eq!(*unit_type, UnitKind::Overlord),
        _ => panic!("expected a unit item"),
    }
}

/// With supply headroom and a short economy, the fallback queues a drone.
#[test]
fn fallback_queues_economy_when_short() {
    let player = PlayerInfo { minerals: 1000, gas: 0, supply_total: 18, supply_used: 9 };
    let units = vec![unit_of(1, UnitKind::Drone, (0, 0))];
    let mut bo: Vec<BuildOrderItem> = Vec::new();
    rustbot::build_order::figure_out_what_to_build(&player, &units, &mut bo);
    match &bo[0] {
        BuildOrderItem::Unit { unit_type, .. } => assert_eq!(*unit_type, UnitKind::Drone),
        _ => panic!("expected a unit item"),
    }
}

/// With a full economy the fallback queues a basic combat unit.
#[test]
fn fallback_queues_combat_when_economy_full() {
    let player = PlayerInfo { minerals: 1000, gas: 0, supply_total: 60, supply_used: 30 };
    let mut units = Vec::new();
    for i in 0..25usize {
        units.push(unit_of(i, UnitKind::Drone, (0, 0)));
    }
    let mut bo: Vec<BuildOrderItem> = Vec::new();
    rustbot::build_order::figure_out_what_to_build(&player, &units, &mut bo);
    match &bo[0] {
        BuildOrderItem::Unit { unit_type, .. } => assert_eq!(*unit_type, UnitKind::Zergling),
        _ => panic!("expected a unit item"),
    }
}

/// An egg already morphing into an overlord suppresses the supply fallback.
#[test]
fn overlord_in_flight_suppresses_supply() {
    let player = PlayerInfo { minerals: 1000, gas: 0, supply_total: 18, supply_used: 17 };
    let mut egg = unit_of(1, UnitKind::Egg, (0, 0));
    egg.build_type = UnitKind::Overlord;
    let units = vec![egg];
    let mut bo: Vec<BuildOrderItem> = Vec::new();
    rustbot::build_order::figure_out_what_to_build(&player, &units, &mut bo);
    match &bo[0] {
        BuildOrderItem::Unit { unit_type, .. } => assert_eq!(*unit_type, UnitKind::Drone),
        _ => panic!("expected a unit item"),
    }
}

/// A squad goal completes atomically: the squad exists and the cursor has
/// already moved past it on the same tick.
#[test]
fn squad_item_completes_atomically() {
    let mut state = GameState::default();
    state.build_order = vec![BuildOrderItem::squad(
        "Harass".to_owned(),
        rustbot::squads::SquadRole::AttackAsMutas,
        rustbot::squads::SquadStatus::Gathering,
    )];
    state.build_order_index = 0;
    let player = rich_player();
    let units: Vec<OwnUnit> = Vec::new();
    rustbot::state::build_order_onframe(&mut state, &units, &player);
    assert_eq!(state.build_order_index, 1);
    assert_eq!(state.military_squads.len(), 1);
    assert_eq!(state.military_squads[0].role, rustbot::squads::SquadRole::AttackAsMutas);
}

/// An upgrade item commits a completed producer of the right kind.
#[test]
fn upgrade_item_commits_researcher() {
    let mut state = GameState::default();
    state.build_order = vec![BuildOrderItem::Upgrade(UpgradeKind::MetabolicBoost)];
    state.build_order_index = 0;
    let player = rich_player();
    let units = vec![unit_of(9, UnitKind::SpawningPool, (96, 96))];
    rustbot::state::build_order_onframe(&mut state, &units, &player);
    assert!(state.building_assignments.contains_key(9));
}

/// Short funds hold the larva commitment back: transient shortage is a wait,
/// not an error.
#[test]
fn short_funds_wait_without_commitment() {
    let mut state = GameState::default();
    state.build_order = opening_five();
    state.build_order_index = 0;
    let player = PlayerInfo { minerals: 10, gas: 0, supply_total: 18, supply_used: 9 };
    let units = vec![unit_of(1, UnitKind::Larva, (64, 64))];
    let action = rustbot::state::build_order_onframe(&mut state, &units, &player);
    assert_eq!(action, BuildOrderAction::Wait);
    assert!(!state.larva_responsibilities.contains_key(1));
}
