use rustbot::ledger::IdMap;
use rustbot::squads::{MilitarySquad, SquadRole, SquadStatus};
use rustbot::units::{OwnUnit, UnitKind, UpgradeKind, OrderKind};

fn zergling(id: usize, pos: (i32, i32)) -> OwnUnit {
    OwnUnit {
        id,
        pos,
        kind: UnitKind::Zergling,
        is_completed: true,
        is_idle: false,
        is_constructing: false,
        is_gathering: false,
        is_morphing: false,
        is_upgrading: false,
        upgrade_in_progress: UpgradeKind::Other,
        build_type: UnitKind::Other,
        order: OrderKind::Other,
        order_target: None,
        order_target_position: None,
    }
}

fn gathering_squad(members: Vec<usize>, threshold: usize) -> MilitarySquad {
    MilitarySquad {
        name: "Main Squad".to_owned(),
        role: SquadRole::AttackWorkers,
        status: SquadStatus::Gathering,
        assigned_unit_ids: members,
        target_position: None,
        target_path: Some(vec![(100, 100), (200, 200), (300, 300), (400, 400)]),
        target_path_index: Some(1),
        leader_unit_id: None,
        required_units_near_leader: threshold,
        unit_path_assignments: IdMap::new(),
    }
}

/// A two-member squad near its target stays gathering under a threshold of
/// four; two more nearby members flip it to attacking on the next tick.
#[test]
fn scenario_squad_readiness_hysteresis() {
    let mut squad = gathering_squad(vec![1, 2], 4);
    let units = vec![zergling(1, (200, 200)), zergling(2, (210, 205))];
    rustbot::military::update_squad(&mut squad, &units);
    assert_eq!(squad.status, SquadStatus::Gathering);

    squad.assigned_unit_ids = vec![1, 2, 3, 4];
    let units = vec![
        zergling(1, (200, 200)),
        zergling(2, (210, 205)),
        zergling(3, (195, 210)),
        zergling(4, (205, 195)),
    ];
    rustbot::military::update_squad(&mut squad, &units);
    assert_eq!(squad.status, SquadStatus::Attacking);
    // the attacking squad aims at the end of its path
    assert_eq!(squad.target_path_index, Some(3));
    assert_eq!(squad.target_position, Some((400, 400)));
}

/// Members far from the waypoint do not count toward readiness.
#[test]
fn faraway_members_do_not_count() {
    let mut squad = gathering_squad(vec![1, 2, 3, 4], 4);
    let units = vec![
        zergling(1, (200, 200)),
        zergling(2, (210, 205)),
        zergling(3, (1000, 1000)),
        zergling(4, (1200, 1200)),
    ];
    rustbot::military::update_squad(&mut squad, &units);
    assert_eq!(squad.status, SquadStatus::Gathering);
}

/// Membership: adding is idempotent, removal erases, and a unit belongs to
/// at most one listing.
#[test]
fn membership_add_remove() {
    let mut squad = gathering_squad(Vec::new(), 4);
    squad.add_member(7);
    squad.add_member(7);
    assert_eq!(squad.assigned_unit_ids.len(), 1);
    squad.remove_member(7);
    assert_eq!(squad.assigned_unit_ids.len(), 0);
}

/// A dead unit is removed from every squad.
#[test]
fn dead_unit_leaves_all_squads() {
    let mut squads = vec![
        gathering_squad(vec![1, 2], 4),
        gathering_squad(vec![2, 3], 4),
    ];
    rustbot::military::remove_unit_from_squads(&mut squads, 2);
    assert_eq!(squads[0].assigned_unit_ids, vec![1]);
    assert_eq!(squads[1].assigned_unit_ids, vec![3]);
}

/// A completed military unit joins the first squad.
#[test]
fn new_unit_joins_first_squad() {
    let mut squads = vec![gathering_squad(Vec::new(), 4)];
    rustbot::military::assign_unit_to_squad(&mut squads, 42);
    assert_eq!(squads[0].assigned_unit_ids, vec![42]);
}

/// Structures, larvae, eggs, drones and overlords are not military units.
#[test]
fn military_classification() {
    let mut u = zergling(1, (0, 0));
    assert!(rustbot::units::is_military_unit(&u));
    u.kind = UnitKind::Drone;
    assert!(!rustbot::units::is_military_unit(&u));
    u.kind = UnitKind::Overlord;
    assert!(!rustbot::units::is_military_unit(&u));
    u.kind = UnitKind::Hatchery;
    assert!(!rustbot::units::is_military_unit(&u));
    u.kind = UnitKind::Larva;
    assert!(!rustbot::units::is_military_unit(&u));
    u.kind = UnitKind::Mutalisk;
    assert!(rustbot::units::is_military_unit(&u));
}

/// The flying squad's waypoint never retreats past one-third progress.
#[test]
fn muta_retreat_bounded_at_one_third() {
    let path: Vec<(i32, i32)> = (0..12).map(|i| (i * 100, 0)).collect();
    let mut squad = MilitarySquad {
        name: "Harass".to_owned(),
        role: SquadRole::AttackAsMutas,
        status: SquadStatus::Gathering,
        assigned_unit_ids: vec![1],
        target_position: Some((900, 0)),
        target_path: Some(path),
        target_path_index: Some(9),
        leader_unit_id: None,
        required_units_near_leader: 6,
        unit_path_assignments: IdMap::new(),
    };
    // the lone member is far behind: too few grouped, so the squad retreats
    let mut muta = zergling(1, (0, 0));
    muta.kind = UnitKind::Mutalisk;
    let units = vec![muta];
    let enemies: Vec<rustbot::units::EnemyUnit> = Vec::new();
    rustbot::mutas::muta_squad_control(&mut squad, &units, &enemies);
    let ix = squad.target_path_index.unwrap();
    assert!(ix >= 12 / 3);
    assert!(ix < 9);
}

/// The flyer's target priority runs anti-air, then static defense, healers
/// and workers, then mobile units, then structures only at the path's end.
#[test]
fn muta_priority_ordering() {
    let base = rustbot::units::EnemyUnit {
        id: 1,
        pos: (0, 0),
        is_building: false,
        is_completed: true,
        is_worker: false,
        is_drone: false,
        is_healer: false,
        is_static_defense: false,
        is_egg_or_larva: false,
        has_ground_weapon: false,
        has_air_weapon: false,
        ground_range: 0,
        air_range: 0,
        is_visible: true,
    };
    let mut anti_air = base.clone();
    anti_air.has_air_weapon = true;
    assert_eq!(rustbot::mutas::muta_priority(&anti_air, false), Some(0));
    let mut worker = base.clone();
    worker.is_worker = true;
    assert_eq!(rustbot::mutas::muta_priority(&worker, false), Some(1));
    assert_eq!(rustbot::mutas::muta_priority(&base, false), Some(2));
    let mut building = base.clone();
    building.is_building = true;
    assert_eq!(rustbot::mutas::muta_priority(&building, false), None);
    assert_eq!(rustbot::mutas::muta_priority(&building, true), Some(3));
    let mut egg = base.clone();
    egg.is_egg_or_larva = true;
    assert_eq!(rustbot::mutas::muta_priority(&egg, true), None);
}

/// The defender breaks off for a hostile near the defense point and
/// otherwise attack-moves there.
#[test]
fn defender_breaks_off_for_hostiles() {
    let unit = zergling(1, (500, 500));
    let hostile = rustbot::units::EnemyUnit {
        id: 77,
        pos: (1010, 1010),
        is_building: false,
        is_completed: true,
        is_worker: false,
        is_drone: false,
        is_healer: false,
        is_static_defense: false,
        is_egg_or_larva: false,
        has_ground_weapon: true,
        has_air_weapon: false,
        ground_range: 16,
        air_range: 0,
        is_visible: true,
    };
    let enemies = vec![hostile];
    let cmd = rustbot::military::defend_unit_control(&unit, &enemies, (1000, 1000));
    assert_eq!(cmd, rustbot::military::UnitCommand::AttackUnit(77));

    let none: Vec<rustbot::units::EnemyUnit> = Vec::new();
    let cmd = rustbot::military::defend_unit_control(&unit, &none, (1000, 1000));
    assert_eq!(cmd, rustbot::military::UnitCommand::AttackMove(1000, 1000));
}

/// The guarded chokepoint is the closest priority-two region center.
#[test]
fn chokepoint_picks_closest_priority_region() {
    let mk = |id: i32, prio: i32, l: i32, t: i32| rustbot::units::RegionInfo {
        id,
        defense_priority: prio,
        bounds_left: l,
        bounds_top: t,
        bounds_right: l + 100,
        bounds_bottom: t + 100,
    };
    let regions = vec![mk(1, 1, 0, 0), mk(2, 2, 1000, 1000), mk(3, 2, 200, 200)];
    let p = rustbot::military::chokepoint_to_guard_base(&regions, (100, 100)).unwrap();
    assert_eq!(p, (250, 250));

    let no_chokes = vec![mk(1, 1, 0, 0)];
    assert!(rustbot::military::chokepoint_to_guard_base(&no_chokes, (100, 100)).is_none());
}
