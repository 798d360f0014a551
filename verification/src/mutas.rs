//! Flying-harassment squad control.
//!
//! The squad tracks a leader, computes a group center from the members near
//! it, and advances its waypoint only when enough members are grouped with no
//! hostiles close, retreating (bounded, never past one-third progress) when
//! too few are grouped: an accordion advance.  Per-unit attack priority runs
//! anti-air first, then static defenses, healers and workers, then other
//! mobile units, and structures only once the path end is reached.

use vstd::prelude::*;
use crate::geom::coord_ok;
use crate::units::{OwnUnit, EnemyUnit};
use crate::squads::MilitarySquad;
use crate::military::UnitCommand;

verus! {

/// Attack priority of a hostile for a flyer: lower is more urgent; nothing
/// when the hostile must be ignored.
pub open spec fn spec_muta_priority(e: EnemyUnit, at_end_of_path: bool) -> Option<int> {
    if e.is_egg_or_larva {
        None
    } else if e.is_building && !at_end_of_path && !e.is_static_defense {
        None
    } else if e.has_air_weapon {
        Some(0)
    } else if e.is_static_defense || e.is_healer || e.is_worker {
        Some(1)
    } else if !e.is_building {
        Some(2)
    } else {
        Some(3)
    }
}

/// Computes `spec_muta_priority` exactly.
pub fn muta_priority(e: &EnemyUnit, at_end_of_path: bool) -> (r: Option<i32>)
    ensures
        r matches Some(p) ==> spec_muta_priority(*e, at_end_of_path) == Some(p as int),
        r is None <==> spec_muta_priority(*e, at_end_of_path) is None,
{
    if e.is_egg_or_larva {
        None
    } else if e.is_building && !at_end_of_path && !e.is_static_defense {
        None
    } else if e.has_air_weapon {
        Some(0)
    } else if e.is_static_defense || e.is_healer || e.is_worker {
        Some(1)
    } else if !e.is_building {
        Some(2)
    } else {
        Some(3)
    }
}

/// The eligible hostile of minimal priority (ties broken by list order).
pub fn pick_prioritized_target(
    list: &Vec<EnemyUnit>, at_end_of_path: bool,
) -> (r: Option<EnemyUnit>)
    ensures
        r matches Some(e) ==> (exists|j: int| 0 <= j < list@.len() && list@[j] == e)
            && spec_muta_priority(e, at_end_of_path) is Some
            && forall|j: int| 0 <= j < list@.len()
                && spec_muta_priority(#[trigger] list@[j], at_end_of_path) is Some
                ==> spec_muta_priority(e, at_end_of_path).unwrap()
                    <= spec_muta_priority(list@[j], at_end_of_path).unwrap(),
        r is None ==> forall|j: int| 0 <= j < list@.len()
            ==> spec_muta_priority(#[trigger] list@[j], at_end_of_path) is None,
{
    let n = list.len();
    let mut best: Option<EnemyUnit> = None;
    let mut best_p: i32 = 0;
    let mut i: usize = 0;
    while i < n
        invariant
            n == list@.len(),
            i <= n,
            best matches Some(e) ==> (exists|j: int| 0 <= j < list@.len()
                    && list@[j] == e)
                && spec_muta_priority(e, at_end_of_path) == Some(best_p as int)
                && forall|j: int| 0 <= j < i
                    && spec_muta_priority(#[trigger] list@[j], at_end_of_path) is Some
                    ==> best_p as int
                        <= spec_muta_priority(list@[j], at_end_of_path).unwrap(),
            best is None ==> forall|j: int| 0 <= j < i
                ==> spec_muta_priority(#[trigger] list@[j], at_end_of_path) is None,
        decreases n - i,
    {
        let e = list[i];
        match muta_priority(&e, at_end_of_path) {
            Some(p) => {
                let take = match best {
                    Some(_) => p < best_p,
                    None => true,
                };
                if take {
                    best = Some(e);
                    best_p = p;
                    proof {
                        assert(list@[i as int] == e);
                    }
                }
            },
            None => {},
        }
        i += 1;
    }
    best
}

/// One flyer's per-tick decision: engage the best-priority hostile within
/// sight, steer (kiting) toward a distant target, and fight or press at a
/// near one.
pub fn muta_unit_control(
    grid: &crate::pathfinder::WalkGrid,
    unit: &OwnUnit,
    enemies: &Vec<EnemyUnit>,
    squad_target: Option<(i32, i32)>,
    at_end_of_path: bool,
) -> (r: UnitCommand)
    requires
        grid.wf(),
        coord_ok(unit.pos),
        unit.order_target_position matches Some(t) ==> coord_ok(t),
        squad_target matches Some(t) ==> coord_ok(t),
        forall|j: int| 0 <= j < enemies@.len()
            ==> coord_ok((#[trigger] enemies@[j]).pos)
                && 0 <= enemies@[j].ground_range < 10_000
                && 0 <= enemies@[j].air_range < 10_000,
    ensures
        r matches UnitCommand::AttackUnit(id) ==> exists|j: int|
            0 <= j < enemies@.len() && (#[trigger] enemies@[j]).id == id,
        // an eligible hostile in sight draws the flyer: an attack, or holding
        // an attack already underway
        ({
            let sighted = crate::military::any_within(
                unit.pos, enemies@, 300, enemies@.len() as int);
            squad_target is Some
                && (exists|k: int| 0 <= k < sighted.len()
                    && spec_muta_priority(#[trigger] sighted[k], at_end_of_path) is Some)
                ==> (r is AttackUnit || r == UnitCommand::Hold)
                    && (unit.order != crate::units::OrderKind::AttackUnit
                        ==> r is AttackUnit)
        }),
{
    let target = match squad_target {
        Some(t) => t,
        None => {
            return UnitCommand::Hold;
        },
    };

    // engage anything in sight by priority
    let in_sight = crate::military::get_all_enemies_within(enemies, unit.pos, 300);
    match pick_prioritized_target(&in_sight, at_end_of_path) {
        Some(e) => {
            proof {
                lemma_any_member_listed(unit.pos, enemies@, 300,
                    enemies@.len() as int, e);
            }
            return crate::military::attack_unit_if_needed(unit, e.id);
        },
        None => {},
    }

    let d2 = crate::geom::distance_squared(unit.pos, target);
    if d2 > 150 * 150 {
        // far: steer toward the target around threats
        let moving = matches!(unit.order, crate::units::OrderKind::Move);
        match crate::steering::handle_threat_avoidance(
            grid, unit.pos, moving, unit.order_target_position, enemies,
            Some(target), crate::steering::ThreatAvoidanceMode::Kiting) {
            crate::steering::AvoidanceDecision::MoveTo(x, y) => UnitCommand::Move(x, y),
            crate::steering::AvoidanceDecision::HoldCourse => UnitCommand::Hold,
            crate::steering::AvoidanceDecision::NoEscape => {
                crate::military::move_to_target(unit, target)
            },
            crate::steering::AvoidanceDecision::NoThreats => {
                crate::military::move_to_target(unit, target)
            },
        }
    } else {
        // near: fight what stands at the objective, else press it
        let near = crate::military::get_all_enemies_within(enemies, unit.pos, 150);
        match pick_prioritized_target(&near, at_end_of_path) {
            Some(e) => {
                proof {
                    lemma_any_member_listed(unit.pos, enemies@, 150,
                        enemies@.len() as int, e);
                }
                crate::military::attack_unit_if_needed(unit, e.id)
            },
            None => crate::military::attack_move_to_position(unit, target),
        }
    }
}

/// A member of the unfiltered radius list is a listed enemy.
proof fn lemma_any_member_listed(
    pos: (i32, i32), es: Seq<EnemyUnit>, radius: int, i: int, e: EnemyUnit,
)
    requires
        0 <= i <= es.len(),
        exists|j: int| 0 <= j < crate::military::any_within(pos, es, radius, i).len()
            && crate::military::any_within(pos, es, radius, i)[j] == e,
    ensures
        exists|j: int| 0 <= j < es.len() && (#[trigger] es[j]).id == e.id,
    decreases i,
{
    if i > 0 {
        let prev = crate::military::any_within(pos, es, radius, i - 1);
        let cur = crate::military::any_within(pos, es, radius, i);
        if cur != prev {
            let j = choose|j: int| 0 <= j < cur.len() && cur[j] == e;
            if j < cur.len() - 1 {
                lemma_any_member_listed(pos, es, radius, i - 1, e);
            } else {
                assert(es[i - 1] == e);
            }
        } else {
            lemma_any_member_listed(pos, es, radius, i - 1, e);
        }
    }
}

/// Number of real threats among the first `i` listed: armed mobile attackers
/// that are neither structures, workers nor spawn.
pub open spec fn count_press(s: Seq<EnemyUnit>, i: int) -> int
    decreases i,
{
    if i <= 0 {
        0
    } else {
        count_press(s, i - 1)
            + if !s[i - 1].is_building && !s[i - 1].is_worker
                && !s[i - 1].is_egg_or_larva { 1int } else { 0int }
    }
}

/// Whether three or more real threats stand within three hundred pixels of
/// some structure of the player.
pub open spec fn press_detected(units: Seq<OwnUnit>, enemies: Seq<EnemyUnit>) -> bool {
    exists|j: int| 0 <= j < units.len()
        && crate::units::spec_is_building((#[trigger] units[j]).kind)
        && count_press(
            crate::military::armed_within(units[j].pos, enemies, 300, enemies.len() as int),
            crate::military::armed_within(
                units[j].pos, enemies, 300, enemies.len() as int).len() as int) >= 3
}

/// A hostile press on the player's structures: the mean position of the
/// attackers once three or more real threats stand near any structure;
/// nothing exactly when no structure is pressed.
pub fn check_enemies_near_buildings(
    my_units: &Vec<OwnUnit>,
    enemies: &Vec<EnemyUnit>,
) -> (r: Option<(i32, i32)>)
    requires
        forall|j: int| 0 <= j < enemies@.len()
            ==> coord_ok((#[trigger] enemies@[j]).pos),
    ensures
        r matches Some(p) ==> coord_ok(p),
        r is Some <==> press_detected(my_units@, enemies@),
{
    let n = my_units.len();
    let mut i: usize = 0;
    while i < n
        invariant
            n == my_units@.len(),
            i <= n,
            forall|j: int| 0 <= j < enemies@.len()
                ==> coord_ok((#[trigger] enemies@[j]).pos),
            forall|j: int| 0 <= j < i
                ==> !(crate::units::spec_is_building((#[trigger] my_units@[j]).kind)
                    && count_press(
                        crate::military::armed_within(my_units@[j].pos, enemies@,
                            300, enemies@.len() as int),
                        crate::military::armed_within(my_units@[j].pos, enemies@,
                            300, enemies@.len() as int).len() as int) >= 3),
        decreases n - i,
    {
        let u = &my_units[i];
        if crate::units::is_building(u.kind) {
            let near = crate::military::get_enemies_within(enemies, u.pos, 300);
            // count the real threats: mobile non-worker attackers
            let mut cnt: usize = 0;
            let mut sx: i128 = 0;
            let mut sy: i128 = 0;
            let mut j: usize = 0;
            while j < near.len()
                invariant
                    j <= near@.len(),
                    cnt <= j,
                    cnt == count_press(near@, j as int),
                    forall|t: int| 0 <= t < enemies@.len()
                        ==> coord_ok((#[trigger] enemies@[t]).pos),
                    near@ == crate::military::armed_within(
                        u.pos, enemies@, 300, enemies@.len() as int),
                    -0x4000_0000 * (cnt as int) <= sx <= 0x4000_0000 * (cnt as int),
                    -0x4000_0000 * (cnt as int) <= sy <= 0x4000_0000 * (cnt as int),
                decreases near@.len() - j,
            {
                let e = near[j];
                proof {
                    assert(near@[j as int] == e);
                    assert(crate::military::armed_within(
                        u.pos, enemies@, 300, enemies@.len() as int)[j as int] == e);
                    lemma_armed_member_coord_ok(u.pos, enemies@, 300,
                        enemies@.len() as int, e);
                    assert(-0x4000_0000 * ((cnt as int) + 1)
                        <= sx + (e.pos.0 as int)
                        <= 0x4000_0000 * ((cnt as int) + 1)
                        && -0x4000_0000 * ((cnt as int) + 1)
                        <= sy + (e.pos.1 as int)
                        <= 0x4000_0000 * ((cnt as int) + 1)) by (nonlinear_arith)
                        requires
                            -0x4000_0000 * (cnt as int) <= sx
                                <= 0x4000_0000 * (cnt as int),
                            -0x4000_0000 * (cnt as int) <= sy
                                <= 0x4000_0000 * (cnt as int),
                            -0x4000_0000 <= (e.pos.0 as int) <= 0x4000_0000,
                            -0x4000_0000 <= (e.pos.1 as int) <= 0x4000_0000,
                            0 <= cnt <= 0xFFFF_FFFF_FFFF_FFFF;
                }
                if !e.is_building && !e.is_worker && !e.is_egg_or_larva {
                    cnt += 1;
                    sx += e.pos.0 as i128;
                    sy += e.pos.1 as i128;
                }
                j += 1;
            }
            proof {
                assert(cnt == count_press(near@, near@.len() as int));
            }
            if cnt >= 3 {
                proof {
                    assert(crate::units::spec_is_building(my_units@[i as int].kind));
                    assert(press_detected(my_units@, enemies@));
                    crate::steering::lemma_div_trunc_bound(sx as int, cnt as int,
                        0x4000_0000);
                    crate::steering::lemma_div_trunc_bound(sy as int, cnt as int,
                        0x4000_0000);
                }
                let ax = crate::geom::div_i128(sx, cnt as i128);
                let ay = crate::geom::div_i128(sy, cnt as i128);
                return Some((ax as i32, ay as i32));
            }
        }
        i += 1;
    }
    None
}

/// A member of the armed radius list keeps the enemies' coordinate bounds.
proof fn lemma_armed_member_coord_ok(
    pos: (i32, i32), es: Seq<EnemyUnit>, radius: int, i: int, e: EnemyUnit,
)
    requires
        0 <= i <= es.len(),
        forall|j: int| 0 <= j < es.len() ==> coord_ok((#[trigger] es[j]).pos),
        exists|j: int| 0 <= j < crate::military::armed_within(pos, es, radius, i).len()
            && crate::military::armed_within(pos, es, radius, i)[j] == e,
    ensures
        coord_ok(e.pos),
    decreases i,
{
    if i > 0 {
        let prev = crate::military::armed_within(pos, es, radius, i - 1);
        let cur = crate::military::armed_within(pos, es, radius, i);
        if cur != prev {
            let j = choose|j: int| 0 <= j < cur.len() && cur[j] == e;
            if j < cur.len() - 1 {
                lemma_armed_member_coord_ok(pos, es, radius, i - 1, e);
            } else {
                assert(es[i - 1] == e);
            }
        } else {
            lemma_armed_member_coord_ok(pos, es, radius, i - 1, e);
        }
    }
}

/// Greedy nearest-neighbor patrol through the visible enemy structures,
/// looping back to the first.  Every waypoint after the start is a visible
/// enemy structure's position; nothing exactly when no visible enemy
/// structure exists.
pub fn create_building_patrol_path(
    enemies: &Vec<EnemyUnit>,
    start: (i32, i32),
) -> (r: Option<Vec<(i32, i32)>>)
    ensures
        r matches Some(p) ==> p@.len() >= 1 && p@[0] == start,
        r is Some <==> exists|j: int| 0 <= j < enemies@.len()
            && (#[trigger] enemies@[j]).is_building && enemies@[j].is_visible,
{
    let mut remaining: Vec<(i32, i32)> = Vec::new();
    let mut i: usize = 0;
    while i < enemies.len()
        invariant
            i <= enemies@.len(),
            remaining@.len() > 0 ==> exists|j: int| 0 <= j < enemies@.len()
                && (#[trigger] enemies@[j]).is_building && enemies@[j].is_visible,
            remaining@.len() == 0 ==> forall|j: int| 0 <= j < i
                ==> !((#[trigger] enemies@[j]).is_building && enemies@[j].is_visible),
        decreases enemies@.len() - i,
    {
        let e = enemies[i];
        if e.is_building && e.is_visible {
            proof {
                assert(enemies@[i as int].is_building && enemies@[i as int].is_visible);
            }
            remaining.push(e.pos);
        }
        i += 1;
    }
    if remaining.len() == 0 {
        return None;
    }

    let mut path: Vec<(i32, i32)> = Vec::new();
    path.push(start);
    let mut current = start;
    while remaining.len() > 0
        invariant
            path@.len() >= 1,
            path@[0] == start,
        decreases remaining@.len(),
    {
        // nearest remaining structure
        let mut best: usize = 0;
        let mut best_d2 = crate::geom::distance_squared(current, remaining[0]);
        let mut j: usize = 1;
        while j < remaining.len()
            invariant
                remaining@.len() > 0,
                best < remaining@.len(),
                j <= remaining@.len(),
            decreases remaining@.len() - j,
        {
            let d2 = crate::geom::distance_squared(current, remaining[j]);
            if d2 < best_d2 {
                best = j;
                best_d2 = d2;
            }
            j += 1;
        }
        let next = remaining.remove(best);
        path.push(next);
        current = next;
    }
    if path.len() > 1 {
        let loop_back = path[1];
        path.push(loop_back);
    }
    Some(path)
}

/// The flying squad's steady state: a recorded path, cursor and target, and
/// a live leader among the members, so no upkeep branch fires first.
pub open spec fn muta_steady(s: MilitarySquad, units: Seq<OwnUnit>) -> bool {
    &&& s.target_path is Some
    &&& s.target_path_index is Some
    &&& s.target_position is Some
    &&& (s.leader_unit_id matches Some(l)
        && crate::military::find_unit(units, l) is Some
        && crate::build_order::has_id(s.assigned_unit_ids@, l))
}

/// Whether too few leading units stand at the target while the squad is past
/// one-third of its path: the retreat condition.
pub open spec fn spec_should_retreat(
    units_close_to_target: int, index: int, path_len: int,
) -> bool {
    units_close_to_target < 3 && index > path_len / 3
}

/// One tick of the flying squad's accordion: redirect to defend pressed
/// structures, retreat the waypoint (never past one-third progress) when the
/// group has thinned, advance it when enough members are grouped with no
/// hostile units near the target, and patrol the enemy structures once the
/// path is exhausted.
pub fn muta_squad_control(
    squad: &mut MilitarySquad,
    my_units: &Vec<OwnUnit>,
    enemies: &Vec<EnemyUnit>,
)
    requires
        old(squad).wf(),
        old(squad).role == crate::squads::SquadRole::AttackAsMutas,
        forall|j: int| 0 <= j < enemies@.len()
            ==> coord_ok((#[trigger] enemies@[j]).pos),
        forall|j: int| 0 <= j < my_units@.len()
            ==> coord_ok((#[trigger] my_units@[j]).pos),
    ensures
        final(squad).wf(),
        final(squad).status == old(squad).status,
        crate::military::spec_squad_update_ok(*old(squad), *final(squad), my_units@),
        // under a live leader and a recorded path: a press on the player's
        // structures overrides the path without moving the cursor
        (muta_steady(*old(squad), my_units@) && press_detected(my_units@, enemies@))
            ==> final(squad).target_path_index == old(squad).target_path_index
                && final(squad).target_path == old(squad).target_path,
        // a thinned squad past one-third progress retreats to the one-third
        // waypoint exactly
        ({
            &&& muta_steady(*old(squad), my_units@)
            &&& !press_detected(my_units@, enemies@)
            &&& old(squad).target_path matches Some(p)
            &&& old(squad).target_path_index matches Some(ix)
            &&& old(squad).target_position matches Some(t)
                && crate::military::count_members_near(
                    my_units@, old(squad).assigned_unit_ids@, t, 200,
                    old(squad).assigned_unit_ids@.len() as int) < 3
            &&& ix > p@.len() / 3
        }) ==> (old(squad).target_path matches Some(p)
            && final(squad).target_path_index == Some((p@.len() / 3) as usize)
            && final(squad).target_position == Some(p@[p@.len() as int / 3])),
        // a grouped squad with a quiet waypoint advances it by one
        ({
            &&& muta_steady(*old(squad), my_units@)
            &&& !press_detected(my_units@, enemies@)
            &&& old(squad).target_path matches Some(p)
            &&& old(squad).target_path_index matches Some(ix)
            &&& old(squad).target_position matches Some(t)
                && ({
                    let close = crate::military::count_members_near(
                        my_units@, old(squad).assigned_unit_ids@, t, 200,
                        old(squad).assigned_unit_ids@.len() as int);
                    &&& !(close < 3 && ix > p@.len() / 3)
                    &&& close >= old(squad).required_units_near_leader
                    &&& p@.len() > 0 && ix < p@.len() - 1
                    &&& forall|k: int| 0 <= k < crate::military::armed_within(
                            t, enemies@, 150, enemies@.len() as int).len()
                        ==> (#[trigger] crate::military::armed_within(
                            t, enemies@, 150, enemies@.len() as int)[k]).is_building
                })
        }) ==> (old(squad).target_path matches Some(p)
            && old(squad).target_path_index matches Some(ix)
            && final(squad).target_path_index == Some((ix + 1) as usize)
            && final(squad).target_position == Some(p@[ix + 1])),
        // an exhausted path with visible enemy structures turns into a
        // patrol: a fresh path from the current target, cursor rewound
        ({
            &&& muta_steady(*old(squad), my_units@)
            &&& !press_detected(my_units@, enemies@)
            &&& old(squad).target_path matches Some(p)
            &&& old(squad).target_path_index matches Some(ix)
            &&& old(squad).target_position matches Some(t)
                && ({
                    let close = crate::military::count_members_near(
                        my_units@, old(squad).assigned_unit_ids@, t, 200,
                        old(squad).assigned_unit_ids@.len() as int);
                    &&& !(close < 3 && ix > p@.len() / 3)
                    &&& p@.len() == 0 || ix >= p@.len() - 1
                })
            &&& exists|j: int| 0 <= j < enemies@.len()
                && (#[trigger] enemies@[j]).is_building && enemies@[j].is_visible
        }) ==> (old(squad).target_position matches Some(t)
            && final(squad).target_path_index == Some(0usize)
            && final(squad).target_position == Some(t)
            && (final(squad).target_path matches Some(p2) && p2@.len() >= 1
                && p2@[0] == t)),
{
    // initialize the target position from the path's one-third point
    match (&squad.target_path, squad.target_position) {
        (Some(p), None) => {
            let initial = p.len() / 3;
            if initial < p.len() {
                squad.target_position = Some(p[initial]);
                squad.target_path_index = Some(initial);
            }
        },
        _ => {},
    }

    let (path_len, index) = match (&squad.target_path, squad.target_path_index) {
        (Some(p), Some(ix)) => (p.len(), ix),
        _ => {
            return;
        },
    };
    let target = match squad.target_position {
        Some(t) => t,
        None => {
            return;
        },
    };

    // a press on the player's structures overrides the path
    match check_enemies_near_buildings(my_units, enemies) {
        Some(press) => {
            squad.target_position = Some(press);
            return;
        },
        None => {},
    }

    // leader upkeep: a dead leader is replaced by the member closest to the
    // target, and the squad target resets to the new leader's position so
    // the squad does not rubber-band back along the path
    let leader_alive = match squad.leader_unit_id {
        Some(lid) => {
            let known = crate::military::lookup_unit(my_units, lid).is_some();
            let mut member = false;
            let mut mi: usize = 0;
            while mi < squad.assigned_unit_ids.len()
                invariant
                    mi <= squad.assigned_unit_ids@.len(),
                    member ==> crate::build_order::has_id(
                        squad.assigned_unit_ids@, lid),
                    !member ==> forall|j: int| 0 <= j < mi
                        ==> squad.assigned_unit_ids@[j] != lid,
                decreases squad.assigned_unit_ids@.len() - mi,
            {
                if squad.assigned_unit_ids[mi] == lid {
                    proof {
                        assert(squad.assigned_unit_ids@[mi as int] == lid);
                    }
                    member = true;
                }
                mi += 1;
            }
            known && member
        },
        None => false,
    };
    if !leader_alive {
        let had_leader = squad.leader_unit_id.is_some();
        let mut new_leader: Option<(usize, (i32, i32))> = None;
        let mut best_d2: i128 = 0;
        let mut mi: usize = 0;
        while mi < squad.assigned_unit_ids.len()
            invariant
                mi <= squad.assigned_unit_ids@.len(),
            decreases squad.assigned_unit_ids@.len() - mi,
        {
            let mid = squad.assigned_unit_ids[mi];
            match crate::military::lookup_unit(my_units, mid) {
                Some(u) => {
                    let d2 = crate::geom::distance_squared(u.pos, target);
                    let take = match new_leader {
                        Some(_) => d2 < best_d2,
                        None => true,
                    };
                    if take {
                        new_leader = Some((mid, u.pos));
                        best_d2 = d2;
                    }
                },
                None => {},
            }
            mi += 1;
        }
        match new_leader {
            Some((lid, lpos)) => {
                squad.leader_unit_id = Some(lid);
                if had_leader {
                    squad.target_position = Some(lpos);
                    return;
                }
            },
            None => {},
        }
    }

    let close = crate::military::members_near(
        my_units, &squad.assigned_unit_ids, target, 200);

    if close < 3 && index > path_len / 3 {
        // retreat: pull the waypoint back, never past one-third progress
        let new_index = path_len / 3;
        squad.target_path_index = Some(new_index);
        match &squad.target_path {
            Some(p) => {
                if new_index < p.len() {
                    squad.target_position = Some(p[new_index]);
                }
            },
            None => {},
        }
        return;
    }

    // advance when enough members are grouped and no hostile unit is near
    if close >= squad.required_units_near_leader && path_len > 0 && index < path_len - 1 {
        let near_target = crate::military::get_enemies_within(enemies, target, 150);
        let mut any_mobile = false;
        let mut j: usize = 0;
        while j < near_target.len()
            invariant
                j <= near_target@.len(),
                near_target@ == crate::military::armed_within(
                    target, enemies@, 150, enemies@.len() as int),
                !any_mobile ==> forall|k: int| 0 <= k < j
                    ==> (#[trigger] near_target@[k]).is_building,
                any_mobile ==> exists|k: int| 0 <= k < near_target@.len()
                    && !(#[trigger] near_target@[k]).is_building,
            decreases near_target@.len() - j,
        {
            if !near_target[j].is_building {
                proof {
                    assert(!near_target@[j as int].is_building);
                }
                any_mobile = true;
            }
            j += 1;
        }
        if !any_mobile {
            let new_index = index + 1;
            squad.target_path_index = Some(new_index);
            match &squad.target_path {
                Some(p) => {
                    if new_index < p.len() {
                        squad.target_position = Some(p[new_index]);
                    }
                },
                None => {},
            }
        }
        return;
    }

    // path exhausted: patrol the visible enemy structures
    if path_len == 0 || index >= path_len - 1 {
        match create_building_patrol_path(enemies, target) {
            Some(p) => {
                let first = p[0];
                let ghost plen = p@.len();
                squad.target_path = Some(p);
                squad.target_path_index = Some(0);
                squad.target_position = Some(first);
            },
            None => {},
        }
    }
}

} // verus!
