use rustbot::ledger::{IdMap, WorkerAssignment, BuildingAssignment, BuildingAssignmentType};
use rustbot::units::{UnitKind, UpgradeKind};

/// Lookup finds exactly what was inserted; removal erases it and nothing
/// else.
#[test]
fn id_map_insert_get_remove() {
    let mut m: IdMap<WorkerAssignment> = IdMap::new();
    assert!(m.get(1).is_none());
    m.insert(1, WorkerAssignment::gathering(100));
    m.insert(2, WorkerAssignment::gathering(200));
    assert_eq!(m.get(1).unwrap().target_unit, Some(100));
    assert_eq!(m.get(2).unwrap().target_unit, Some(200));
    m.remove(1);
    assert!(m.get(1).is_none());
    assert_eq!(m.get(2).unwrap().target_unit, Some(200));
    assert_eq!(m.len(), 1);
    // removing an absent key changes nothing
    m.remove(77);
    assert_eq!(m.len(), 1);
}

/// Producer records carry their goal and the build-order index they serve.
#[test]
fn building_assignment_records() {
    let train = BuildingAssignment::new(UnitKind::Lair, 7);
    assert_eq!(train.assignment_type, BuildingAssignmentType::TrainUnit(UnitKind::Lair));
    assert_eq!(train.build_order_index, 7);
    let research = BuildingAssignment::new_upgrade(UpgradeKind::MetabolicBoost, 9);
    assert_eq!(
        research.assignment_type,
        BuildingAssignmentType::ResearchUpgrade(UpgradeKind::MetabolicBoost)
    );
    assert_eq!(research.build_order_index, 9);
}

/// Worker record constructors fill exactly their own fields.
#[test]
fn worker_assignment_constructors() {
    let g = WorkerAssignment::gathering(5);
    assert_eq!(g.target_unit, Some(5));
    assert!(g.target_position.is_none());
    assert!(g.build_order_index.is_none());
    let b = WorkerAssignment::building(Some(9), (3, 4), 2);
    assert_eq!(b.target_unit, Some(9));
    assert_eq!(b.target_position, Some((3, 4)));
    assert_eq!(b.build_order_index, Some(2));
    let s = WorkerAssignment::scouting((7, 8));
    assert!(s.target_unit.is_none());
    assert_eq!(s.target_position, Some((7, 8)));
}

/// Negative numbers render with a leading minus sign.
#[test]
fn negative_decimal_rendering() {
    let mut s = String::new();
    rustbot::status::append_int(&mut s, -90210);
    assert_eq!(s, "-90210");
    let mut s = String::new();
    rustbot::status::append_int(&mut s, 41);
    assert_eq!(s, "41");
}

/// A dead flying-squad leader is replaced by the member closest to the
/// target, and the squad target resets to the new leader's position.
#[test]
fn muta_leader_reassigned_on_death() {
    let path: Vec<(i32, i32)> = (0..12).map(|i| (i * 100, 0)).collect();
    let mut squad = rustbot::squads::MilitarySquad {
        name: "Harass".to_owned(),
        role: rustbot::squads::SquadRole::AttackAsMutas,
        status: rustbot::squads::SquadStatus::Gathering,
        assigned_unit_ids: vec![1, 2],
        target_position: Some((600, 0)),
        target_path: Some(path),
        target_path_index: Some(6),
        leader_unit_id: Some(99), // dead
        required_units_near_leader: 1,
        unit_path_assignments: IdMap::new(),
    };
    let muta = |id: usize, pos: (i32, i32)| rustbot::units::OwnUnit {
        id,
        pos,
        kind: UnitKind::Mutalisk,
        is_completed: true,
        is_idle: false,
        is_constructing: false,
        is_gathering: false,
        is_morphing: false,
        is_upgrading: false,
        upgrade_in_progress: UpgradeKind::Other,
        build_type: UnitKind::Other,
        order: rustbot::units::OrderKind::Other,
        order_target: None,
        order_target_position: None,
    };
    let units = vec![muta(1, (100, 0)), muta(2, (550, 0))];
    let enemies: Vec<rustbot::units::EnemyUnit> = Vec::new();
    rustbot::mutas::muta_squad_control(&mut squad, &units, &enemies);
    // member 2 stands closest to the target, so it leads now
    assert_eq!(squad.leader_unit_id, Some(2));
    assert_eq!(squad.target_position, Some((550, 0)));
}

/// A pressed structure redirects the flying squad without moving its cursor.
#[test]
fn muta_press_redirects_target() {
    let path: Vec<(i32, i32)> = (0..12).map(|i| (i * 100, 0)).collect();
    let mut squad = rustbot::squads::MilitarySquad {
        name: "Harass".to_owned(),
        role: rustbot::squads::SquadRole::AttackAsMutas,
        status: rustbot::squads::SquadStatus::Gathering,
        assigned_unit_ids: vec![1],
        target_position: Some((600, 0)),
        target_path: Some(path),
        target_path_index: Some(6),
        leader_unit_id: Some(1),
        required_units_near_leader: 1,
        unit_path_assignments: IdMap::new(),
    };
    let muta = rustbot::units::OwnUnit {
        id: 1,
        pos: (600, 0),
        kind: UnitKind::Mutalisk,
        is_completed: true,
        is_idle: false,
        is_constructing: false,
        is_gathering: false,
        is_morphing: false,
        is_upgrading: false,
        upgrade_in_progress: UpgradeKind::Other,
        build_type: UnitKind::Other,
        order: rustbot::units::OrderKind::Other,
        order_target: None,
        order_target_position: None,
    };
    let mut hatch = muta.clone();
    hatch.id = 2;
    hatch.kind = UnitKind::Hatchery;
    hatch.pos = (3000, 3000);
    let units = vec![muta, hatch];
    // three armed mobile attackers stand at the hatchery
    let raider = |id: usize| rustbot::units::EnemyUnit {
        id,
        pos: (3050, 3000),
        is_building: false,
        is_completed: true,
        is_worker: false,
        is_drone: false,
        is_healer: false,
        is_static_defense: false,
        is_egg_or_larva: false,
        has_ground_weapon: true,
        has_air_weapon: false,
        ground_range: 16,
        air_range: 0,
        is_visible: true,
    };
    let enemies = vec![raider(10), raider(11), raider(12)];
    rustbot::mutas::muta_squad_control(&mut squad, &units, &enemies);
    // the target snapped to the press, the cursor stayed
    assert_eq!(squad.target_path_index, Some(6));
    let t = squad.target_position.unwrap();
    assert!((t.0 - 3050).abs() < 64 && (t.1 - 3000).abs() < 64);
}

/// An exhausted path with a visible enemy structure turns into a patrol.
#[test]
fn muta_patrol_on_exhausted_path() {
    let path: Vec<(i32, i32)> = (0..4).map(|i| (i * 100, 0)).collect();
    let mut squad = rustbot::squads::MilitarySquad {
        name: "Harass".to_owned(),
        role: rustbot::squads::SquadRole::AttackAsMutas,
        status: rustbot::squads::SquadStatus::Gathering,
        assigned_unit_ids: vec![1, 2, 3],
        target_position: Some((300, 0)),
        target_path: Some(path),
        target_path_index: Some(3),
        leader_unit_id: Some(1),
        required_units_near_leader: 1,
        unit_path_assignments: IdMap::new(),
    };
    let muta = |id: usize| rustbot::units::OwnUnit {
        id,
        pos: (300, 0),
        kind: UnitKind::Mutalisk,
        is_completed: true,
        is_idle: false,
        is_constructing: false,
        is_gathering: false,
        is_morphing: false,
        is_upgrading: false,
        upgrade_in_progress: UpgradeKind::Other,
        build_type: UnitKind::Other,
        order: rustbot::units::OrderKind::Other,
        order_target: None,
        order_target_position: None,
    };
    let units = vec![muta(1), muta(2), muta(3)];
    let spire = rustbot::units::EnemyUnit {
        id: 50,
        pos: (900, 900),
        is_building: true,
        is_completed: true,
        is_worker: false,
        is_drone: false,
        is_healer: false,
        is_static_defense: false,
        is_egg_or_larva: false,
        has_ground_weapon: false,
        has_air_weapon: false,
        ground_range: 0,
        air_range: 0,
        is_visible: true,
    };
    let enemies = vec![spire];
    rustbot::mutas::muta_squad_control(&mut squad, &units, &enemies);
    assert_eq!(squad.target_path_index, Some(0));
    let p = squad.target_path.as_ref().unwrap();
    assert_eq!(p[0], (300, 0));
    assert!(p.contains(&(900, 900)));
}

/// Enemy drones are not threats, matching the engagement doctrine.
#[test]
fn enemy_drones_are_not_threats() {
    let drone = rustbot::units::EnemyUnit {
        id: 9,
        pos: (1040, 1000),
        is_building: false,
        is_completed: true,
        is_worker: true,
        is_drone: true,
        is_healer: false,
        is_static_defense: false,
        is_egg_or_larva: false,
        has_ground_weapon: true,
        has_air_weapon: false,
        ground_range: 16,
        air_range: 0,
        is_visible: true,
    };
    let threats = rustbot::steering::get_threats_with_range_awareness(
        &vec![drone.clone()], (1000, 1000));
    assert_eq!(threats.len(), 0);
    // nor do they count as armed combatants for engagement filters
    let armed = rustbot::military::get_enemies_within(&vec![drone], (1000, 1000), 100);
    assert_eq!(armed.len(), 0);
}

/// No alternative resource with room means no reassignment at all.
#[test]
fn reassignment_fails_when_everything_is_full() {
    let mut assignments: IdMap<WorkerAssignment> = IdMap::new();
    assignments.insert(1, WorkerAssignment::gathering(100));
    assignments.insert(2, WorkerAssignment::gathering(200));
    assignments.insert(3, WorkerAssignment::gathering(200));
    let minerals = vec![rustbot::units::ResourceNode {
        id: 200, pos: (90, 90), amount: 1500, is_gas: false, exists: true }];
    let extractors: Vec<rustbot::units::OwnUnit> = Vec::new();
    let changed = rustbot::worker_alloc::assign_worker_to_other_resource(
        1, &mut assignments, &minerals, &extractors);
    assert!(!changed);
    assert_eq!(assignments.get(1).unwrap().target_unit, Some(100));
}
