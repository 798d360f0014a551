//! Military squad coordination: per-squad state machine and per-unit combat
//! decisions.
//!
//! A `Gathering` squad turns to `Attacking` only once enough members stand
//! near its current waypoint (hysteresis against lone stragglers); an
//! `Attacking` squad pushes along its path, engaging by role-specific
//! priorities and steering around threats.

use vstd::prelude::*;
use crate::geom::{dist_sq, coord_ok};
use crate::units::{OwnUnit, EnemyUnit};
use crate::squads::{MilitarySquad, SquadRole, SquadStatus};

verus! {

/// A command the coordinator asks the engine to issue for one unit.
#[derive(Clone, Copy, Debug, PartialEq, Eq, Structural)]
pub enum UnitCommand {
    /// Keep the unit's current order.
    Hold,
    AttackUnit(usize),
    AttackMove(i32, i32),
    Move(i32, i32),
}

/// Whether the enemy counts as an armed combatant: it can attack and is not
/// a drone.
pub open spec fn enemy_armed(e: EnemyUnit) -> bool {
    (e.has_ground_weapon || e.has_air_weapon) && !e.is_drone
}

/// The armed enemies within `radius` of `pos`, among the first `i`.
pub open spec fn armed_within(
    pos: (i32, i32), es: Seq<EnemyUnit>, radius: int, i: int,
) -> Seq<EnemyUnit>
    decreases i,
{
    if i <= 0 {
        Seq::empty()
    } else if enemy_armed(es[i - 1]) && dist_sq(
        pos.0 as int, pos.1 as int, es[i - 1].pos.0 as int, es[i - 1].pos.1 as int)
        <= radius * radius {
        armed_within(pos, es, radius, i - 1).push(es[i - 1])
    } else {
        armed_within(pos, es, radius, i - 1)
    }
}

/// The armed enemies within `radius` pixels of `pos`.
pub fn get_enemies_within(
    enemies: &Vec<EnemyUnit>, pos: (i32, i32), radius: i32,
) -> (r: Vec<EnemyUnit>)
    requires
        0 <= radius < 0x10000,
    ensures
        r@ == armed_within(pos, enemies@, radius as int, enemies@.len() as int),
{
    let n = enemies.len();
    let mut r: Vec<EnemyUnit> = Vec::new();
    let mut i: usize = 0;
    while i < n
        invariant
            n == enemies@.len(),
            i <= n,
            0 <= radius < 0x10000,
            r@ == armed_within(pos, enemies@, radius as int, i as int),
        decreases n - i,
    {
        let e = enemies[i];
        if (e.has_ground_weapon || e.has_air_weapon) && !e.is_drone {
            let d2 = crate::geom::distance_squared(pos, e.pos);
            proof {
                assert(0 <= (radius as int) * (radius as int)
                    < 0x1_0000_0000) by (nonlinear_arith)
                    requires 0 <= (radius as int) < 0x10000;
            }
            if d2 <= (radius as i128) * (radius as i128) {
                r.push(e);
            }
        }
        i += 1;
        proof {
            assert(r@ == armed_within(pos, enemies@, radius as int, i as int));
        }
    }
    r
}

/// Every enemy (armed or not) within `radius` of `pos`, among the first `i`.
pub open spec fn any_within(
    pos: (i32, i32), es: Seq<EnemyUnit>, radius: int, i: int,
) -> Seq<EnemyUnit>
    decreases i,
{
    if i <= 0 {
        Seq::empty()
    } else if dist_sq(pos.0 as int, pos.1 as int,
        es[i - 1].pos.0 as int, es[i - 1].pos.1 as int) <= radius * radius {
        any_within(pos, es, radius, i - 1).push(es[i - 1])
    } else {
        any_within(pos, es, radius, i - 1)
    }
}

/// Every enemy within `radius` pixels of `pos`, whatever its armament.
pub fn get_all_enemies_within(
    enemies: &Vec<EnemyUnit>, pos: (i32, i32), radius: i32,
) -> (r: Vec<EnemyUnit>)
    requires
        0 <= radius < 0x10000,
    ensures
        r@ == any_within(pos, enemies@, radius as int, enemies@.len() as int),
{
    let n = enemies.len();
    let mut r: Vec<EnemyUnit> = Vec::new();
    let mut i: usize = 0;
    while i < n
        invariant
            n == enemies@.len(),
            i <= n,
            0 <= radius < 0x10000,
            r@ == any_within(pos, enemies@, radius as int, i as int),
        decreases n - i,
    {
        let e = enemies[i];
        let d2 = crate::geom::distance_squared(pos, e.pos);
        proof {
            assert(0 <= (radius as int) * (radius as int)
                < 0x1_0000_0000) by (nonlinear_arith)
                requires 0 <= (radius as int) < 0x10000;
        }
        if d2 <= (radius as i128) * (radius as i128) {
            r.push(e);
        }
        i += 1;
        proof {
            assert(r@ == any_within(pos, enemies@, radius as int, i as int));
        }
    }
    r
}

/// The enemy workers within `radius` of `pos`, among the first `i`.
pub open spec fn workers_within(
    pos: (i32, i32), es: Seq<EnemyUnit>, radius: int, i: int,
) -> Seq<EnemyUnit>
    decreases i,
{
    if i <= 0 {
        Seq::empty()
    } else if es[i - 1].is_worker && dist_sq(pos.0 as int, pos.1 as int,
        es[i - 1].pos.0 as int, es[i - 1].pos.1 as int) <= radius * radius {
        workers_within(pos, es, radius, i - 1).push(es[i - 1])
    } else {
        workers_within(pos, es, radius, i - 1)
    }
}

/// The enemy workers within `radius` pixels of `pos`.
pub fn get_worker_enemies_within(
    enemies: &Vec<EnemyUnit>, pos: (i32, i32), radius: i32,
) -> (r: Vec<EnemyUnit>)
    requires
        0 <= radius < 0x10000,
    ensures
        r@ == workers_within(pos, enemies@, radius as int, enemies@.len() as int),
{
    let n = enemies.len();
    let mut r: Vec<EnemyUnit> = Vec::new();
    let mut i: usize = 0;
    while i < n
        invariant
            n == enemies@.len(),
            i <= n,
            0 <= radius < 0x10000,
            r@ == workers_within(pos, enemies@, radius as int, i as int),
        decreases n - i,
    {
        let e = enemies[i];
        if e.is_worker {
            let d2 = crate::geom::distance_squared(pos, e.pos);
            proof {
                assert(0 <= (radius as int) * (radius as int)
                    < 0x1_0000_0000) by (nonlinear_arith)
                    requires 0 <= (radius as int) < 0x10000;
            }
            if d2 <= (radius as i128) * (radius as i128) {
                r.push(e);
            }
        }
        i += 1;
        proof {
            assert(r@ == workers_within(pos, enemies@, radius as int, i as int));
        }
    }
    r
}

/// The listed enemy closest to `pos` (ties broken by list order).
pub fn closest_of(list: &Vec<EnemyUnit>, pos: (i32, i32)) -> (r: Option<EnemyUnit>)
    ensures
        r matches Some(e) ==> exists|j: int| 0 <= j < list@.len() && list@[j] == e,
        r matches Some(e) ==> forall|j: int| 0 <= j < list@.len()
            ==> dist_sq(pos.0 as int, pos.1 as int, e.pos.0 as int, e.pos.1 as int)
                <= dist_sq(pos.0 as int, pos.1 as int,
                    (#[trigger] list@[j]).pos.0 as int, list@[j].pos.1 as int),
        r is None <==> list@.len() == 0,
{
    let n = list.len();
    if n == 0 {
        return None;
    }
    let mut best: EnemyUnit = list[0];
    let mut best_d2: i128 = crate::geom::distance_squared(pos, list[0].pos);
    let mut i: usize = 1;
    while i < n
        invariant
            n == list@.len(),
            1 <= i <= n,
            exists|j: int| 0 <= j < list@.len() && list@[j] == best,
            best_d2 == dist_sq(pos.0 as int, pos.1 as int,
                best.pos.0 as int, best.pos.1 as int),
            forall|j: int| 0 <= j < i
                ==> best_d2 <= dist_sq(pos.0 as int, pos.1 as int,
                    (#[trigger] list@[j]).pos.0 as int, list@[j].pos.1 as int),
        decreases n - i,
    {
        let d2 = crate::geom::distance_squared(pos, list[i].pos);
        if d2 < best_d2 {
            best = list[i];
            best_d2 = d2;
            proof {
                assert(list@[i as int] == best);
            }
        }
        i += 1;
    }
    Some(best)
}

/// First unit of the list with the given id.
pub open spec fn find_unit(units: Seq<OwnUnit>, id: usize) -> Option<OwnUnit>
    decreases units.len(),
{
    if units.len() == 0 {
        None
    } else if units[0].id == id {
        Some(units[0])
    } else {
        find_unit(units.drop_first(), id)
    }
}

/// Looks a unit up by id, exactly per `find_unit`.
pub fn lookup_unit(units: &Vec<OwnUnit>, id: usize) -> (r: Option<OwnUnit>)
    ensures
        r == find_unit(units@, id),
{
    let n = units.len();
    let mut i: usize = 0;
    proof {
        assert(units@.skip(0) =~= units@);
    }
    while i < n
        invariant
            n == units@.len(),
            i <= n,
            find_unit(units@, id) == find_unit(units@.skip(i as int), id),
        decreases n - i,
    {
        proof {
            assert(units@.skip(i as int)[0] == units@[i as int]);
            assert(units@.skip(i as int).drop_first() =~= units@.skip(i as int + 1));
        }
        if units[i].id == id {
            return Some(units[i]);
        }
        i += 1;
    }
    proof {
        assert(units@.skip(n as int) =~= Seq::<OwnUnit>::empty());
    }
    None
}

/// Number of the squad's first `i` members whose unit stands within `radius`
/// pixels of `target`.
pub open spec fn count_members_near(
    units: Seq<OwnUnit>, ids: Seq<usize>, target: (i32, i32), radius: int, i: int,
) -> int
    decreases i,
{
    if i <= 0 {
        0
    } else {
        count_members_near(units, ids, target, radius, i - 1)
            + if find_unit(units, ids[i - 1]) matches Some(u)
                && dist_sq(u.pos.0 as int, u.pos.1 as int,
                    target.0 as int, target.1 as int) <= radius * radius {
                1int
            } else {
                0int
            }
    }
}

/// Counts the members standing within `radius` pixels of `target`.
pub fn members_near(
    units: &Vec<OwnUnit>, ids: &Vec<usize>, target: (i32, i32), radius: i32,
) -> (c: usize)
    requires
        0 <= radius < 0x10000,
    ensures
        c == count_members_near(units@, ids@, target, radius as int, ids@.len() as int),
{
    let n = ids.len();
    let mut c: usize = 0;
    let mut i: usize = 0;
    while i < n
        invariant
            n == ids@.len(),
            i <= n,
            c <= i,
            0 <= radius < 0x10000,
            c == count_members_near(units@, ids@, target, radius as int, i as int),
        decreases n - i,
    {
        match lookup_unit(units, ids[i]) {
            Some(u) => {
                let d2 = crate::geom::distance_squared(u.pos, target);
                proof {
                    assert(0 <= (radius as int) * (radius as int)
                        < 0x1_0000_0000) by (nonlinear_arith)
                        requires 0 <= (radius as int) < 0x10000;
                }
                if d2 <= (radius as i128) * (radius as i128) {
                    c += 1;
                }
            },
            None => {},
        }
        i += 1;
    }
    c
}

/// One squad's per-tick state update.  The current waypoint becomes the
/// target; an attack-workers squad turns to `Attacking` only once its
/// readiness threshold of members stands within eighty pixels of the target,
/// and then aims at the end of its path.  A squad below the threshold never
/// leaves `Gathering` here.
pub fn update_squad(squad: &mut MilitarySquad, units: &Vec<OwnUnit>)
    requires
        old(squad).wf(),
    ensures
        final(squad).wf(),
        spec_squad_update_ok(*old(squad), *final(squad), units@),
{
    // refresh the target from the path cursor
    let refreshed: Option<(i32, i32)> = match (&squad.target_path, squad.target_path_index) {
        (Some(p), Some(ix)) => {
            if ix < p.len() {
                Some(p[ix])
            } else {
                squad.target_position
            }
        },
        _ => squad.target_position,
    };
    squad.target_position = refreshed;
    proof {
        assert(squad.target_position == spec_current_target(old(squad)));
    }

    let target = match squad.target_position {
        Some(t) => t,
        None => {
            return;
        },
    };

    let close = members_near(units, &squad.assigned_unit_ids, target, 80);

    match squad.role {
        SquadRole::AttackWorkers => {
            if close < squad.required_units_near_leader {
                return;
            }
            let path_len = match &squad.target_path {
                Some(p) => p.len(),
                None => {
                    return;
                },
            };
            if path_len == 0 {
                return;
            }
            squad.status = SquadStatus::Attacking;
            squad.target_path_index = Some(path_len - 1);
            let last = match &squad.target_path {
                Some(p) => p[path_len - 1],
                None => target,
            };
            squad.target_position = Some(last);
        },
        _ => {},
    }
}

/// What one tick of squad upkeep may do to a squad: identity fields stay,
/// an attacking squad never reverts, a gathering attack-workers squad below
/// its readiness threshold near its waypoint stays gathering, one at or
/// above it with a recorded nonempty path attacks and aims at the path's
/// end, and a flying squad's waypoint never retreats past one-third
/// progress on an unchanged path.
pub open spec fn spec_squad_update_ok(
    pre: MilitarySquad, post: MilitarySquad, units: Seq<OwnUnit>,
) -> bool {
    &&& post.role == pre.role
    &&& post.assigned_unit_ids@ == pre.assigned_unit_ids@
    &&& post.required_units_near_leader == pre.required_units_near_leader
    &&& (pre.status == SquadStatus::Attacking ==> post.status == SquadStatus::Attacking)
    &&& ({
        let tgt = spec_current_target(&pre);
        pre.status == SquadStatus::Gathering
            && (tgt matches Some(t) && count_members_near(
                units, pre.assigned_unit_ids@, t, 80,
                pre.assigned_unit_ids@.len() as int)
                < pre.required_units_near_leader)
            ==> post.status == SquadStatus::Gathering
    })
    &&& ({
        let tgt = spec_current_target(&pre);
        pre.role == SquadRole::AttackWorkers
            && pre.status == SquadStatus::Gathering
            && (tgt matches Some(t) && count_members_near(
                units, pre.assigned_unit_ids@, t, 80,
                pre.assigned_unit_ids@.len() as int)
                >= pre.required_units_near_leader)
            && (pre.target_path matches Some(p) && p@.len() > 0)
            ==> (pre.target_path matches Some(p)
                && post.status == SquadStatus::Attacking
                && post.target_path_index == Some((p@.len() - 1) as usize)
                && post.target_position == Some(p@[p@.len() - 1]))
    })
    &&& ({
        &&& post.target_path == pre.target_path
        &&& pre.target_path matches Some(p)
        &&& pre.target_path_index matches Some(ix)
        &&& ix + 1 < p@.len()
        &&& post.target_path_index matches Some(ix2)
        &&& ix2 < ix
    } ==> (post.target_path_index matches Some(ix2)
        && pre.target_path matches Some(p)
        && ix2 >= p@.len() as int / 3))
}

/// The waypoint a squad is currently working toward: the path entry under
/// its cursor when one exists, else its recorded target.
pub open spec fn spec_current_target(s: &MilitarySquad) -> Option<(i32, i32)> {
    match (s.target_path, s.target_path_index) {
        (Some(p), Some(ix)) => {
            if ix < p@.len() {
                Some(p@[ix as int])
            } else {
                s.target_position
            }
        },
        _ => s.target_position,
    }
}

/// Adds a completed military unit to the first squad, if any squad exists.
pub fn assign_unit_to_squad(squads: &mut Vec<MilitarySquad>, unit_id: usize)
    requires
        forall|i: int| 0 <= i < old(squads)@.len() ==> (#[trigger] old(squads)@[i]).wf(),
    ensures
        final(squads)@.len() == old(squads)@.len(),
        forall|i: int| 0 <= i < final(squads)@.len() ==> (#[trigger] final(squads)@[i]).wf(),
        old(squads)@.len() > 0 ==> final(squads)@[0].spec_has_member(unit_id),
        forall|i: int| 1 <= i < final(squads)@.len()
            ==> #[trigger] final(squads)@[i] == old(squads)@[i],
{
    if squads.len() == 0 {
        return;
    }
    let mut first = squads.remove(0);
    first.add_member(unit_id);
    squads.insert(0, first);
    proof {
        assert forall|i: int| 0 <= i < squads@.len()
            implies (#[trigger] squads@[i]).wf() by {
            if i > 0 {
                assert(squads@[i] == old(squads)@[i]);
            }
        }
    }
}

/// What removing one dead unit may do to a squad: that unit is gone, every
/// other member and every other field stays.
pub open spec fn spec_member_removed(
    pre: MilitarySquad, post: MilitarySquad, unit_id: usize,
) -> bool {
    &&& !post.spec_has_member(unit_id)
    &&& (forall|id2: usize| id2 != unit_id
        ==> post.spec_has_member(id2) == pre.spec_has_member(id2))
    &&& post.name == pre.name
    &&& post.role == pre.role
    &&& post.status == pre.status
    &&& post.target_position == pre.target_position
    &&& post.target_path == pre.target_path
    &&& post.target_path_index == pre.target_path_index
    &&& post.leader_unit_id == pre.leader_unit_id
    &&& post.required_units_near_leader == pre.required_units_near_leader
}

/// Removes a dead unit from every squad; everything else about each squad is
/// untouched.
pub fn remove_unit_from_squads(squads: &mut Vec<MilitarySquad>, unit_id: usize)
    requires
        forall|i: int| 0 <= i < old(squads)@.len() ==> (#[trigger] old(squads)@[i]).wf(),
    ensures
        final(squads)@.len() == old(squads)@.len(),
        forall|i: int| 0 <= i < final(squads)@.len() ==> (#[trigger] final(squads)@[i]).wf(),
        forall|i: int| 0 <= i < final(squads)@.len()
            ==> spec_member_removed(old(squads)@[i],
                #[trigger] final(squads)@[i], unit_id),
{
    let n = squads.len();
    let mut i: usize = 0;
    while i < n
        invariant
            n == squads@.len(),
            n == old(squads)@.len(),
            i <= n,
            forall|j: int| 0 <= j < squads@.len() ==> (#[trigger] squads@[j]).wf(),
            forall|j: int| 0 <= j < i
                ==> spec_member_removed(old(squads)@[j],
                    #[trigger] squads@[j], unit_id),
            forall|j: int| i <= j < n
                ==> #[trigger] squads@[j] == old(squads)@[j],
        decreases n - i,
    {
        let ghost pre_squads = squads@;
        let mut s = squads.remove(i);
        proof {
            assert(s == pre_squads[i as int]);
        }
        s.remove_member(unit_id);
        squads.insert(i, s);
        proof {
            assert(squads@ =~= pre_squads.update(i as int, squads@[i as int]));
            assert(squads@[i as int] == s);
            assert forall|j: int| 0 <= j < i + 1
                implies spec_member_removed(old(squads)@[j],
                    #[trigger] squads@[j], unit_id) by {
                if j < i {
                    assert(squads@[j] == pre_squads[j]);
                }
            }
            assert forall|j: int| i + 1 <= j < n
                implies #[trigger] squads@[j] == old(squads)@[j] by {
                assert(squads@[j] == pre_squads[j]);
            }
        }
        i += 1;
    }
}

} // verus!

verus! {

/// Whether the command is sound for the given enemy list: any named target
/// is a listed enemy's id.
pub open spec fn command_targets_listed_enemy(c: UnitCommand, es: Seq<EnemyUnit>) -> bool {
    c matches UnitCommand::AttackUnit(id)
        ==> exists|j: int| 0 <= j < es.len() && (#[trigger] es[j]).id == id
}

/// A plain march order: issue a move unless the unit is already moving to
/// that exact point.
pub fn move_to_target(unit: &OwnUnit, target: (i32, i32)) -> (r: UnitCommand)
    ensures
        r == if unit.order == crate::units::OrderKind::Move
            && unit.order_target_position == Some(target) {
            UnitCommand::Hold
        } else {
            UnitCommand::Move(target.0, target.1)
        },
{
    if matches!(unit.order, crate::units::OrderKind::Move) {
        match unit.order_target_position {
            Some(t) => {
                if t.0 == target.0 && t.1 == target.1 {
                    return UnitCommand::Hold;
                }
            },
            None => {},
        }
    }
    UnitCommand::Move(target.0, target.1)
}

/// An attack-move order: issue unless already attack-moving to that point.
pub fn attack_move_to_position(unit: &OwnUnit, target: (i32, i32)) -> (r: UnitCommand)
    ensures
        r == if unit.order == crate::units::OrderKind::AttackMove
            && unit.order_target_position == Some(target) {
            UnitCommand::Hold
        } else {
            UnitCommand::AttackMove(target.0, target.1)
        },
{
    if matches!(unit.order, crate::units::OrderKind::AttackMove) {
        match unit.order_target_position {
            Some(t) => {
                if t.0 == target.0 && t.1 == target.1 {
                    return UnitCommand::Hold;
                }
            },
            None => {},
        }
    }
    UnitCommand::AttackMove(target.0, target.1)
}

/// Locks onto the target unless already attacking something.
pub fn attack_unit_if_needed(unit: &OwnUnit, target_id: usize) -> (r: UnitCommand)
    ensures
        r == UnitCommand::Hold || r == UnitCommand::AttackUnit(target_id),
        unit.order != crate::units::OrderKind::AttackUnit
            ==> r == UnitCommand::AttackUnit(target_id),
{
    if matches!(unit.order, crate::units::OrderKind::AttackUnit) {
        match unit.order_target {
            Some(_) => {
                // already attacking a live target: keep at it
                return UnitCommand::Hold;
            },
            None => {
                return UnitCommand::AttackUnit(target_id);
            },
        }
    }
    UnitCommand::AttackUnit(target_id)
}

/// One attack-workers squad member while the squad gathers: engage an armed
/// hostile within eighty pixels pre-emptively, else attack-move toward the
/// rally target.
pub fn attack_workers_gathering_control(
    unit: &OwnUnit,
    enemies: &Vec<EnemyUnit>,
    squad_target: Option<(i32, i32)>,
) -> (r: UnitCommand)
    ensures
        command_targets_listed_enemy(r, enemies@),
        r matches UnitCommand::AttackMove(x, y) ==> squad_target == Some((x, y)),
        r is Move ==> false,
        // engagement is owed: an armed hostile within eighty pixels draws an
        // attack unless the unit is already attacking
        ({
            let near = armed_within(unit.pos, enemies@, 80, enemies@.len() as int);
            &&& (near.len() > 0 && unit.order != crate::units::OrderKind::AttackUnit
                ==> r is AttackUnit)
            &&& (near.len() > 0 && unit.order == crate::units::OrderKind::AttackUnit
                ==> r == UnitCommand::Hold)
            &&& ((near.len() == 0 && squad_target matches Some(t))
                ==> (squad_target matches Some(t)
                    && r == (if unit.order == crate::units::OrderKind::AttackMove
                        && unit.order_target_position == Some(t) {
                        UnitCommand::Hold
                    } else {
                        UnitCommand::AttackMove(t.0, t.1)
                    })))
            &&& (near.len() == 0 && squad_target is None ==> r == UnitCommand::Hold)
        }),
{
    let nearby = get_enemies_within(enemies, unit.pos, 80);
    match closest_of(&nearby, unit.pos) {
        Some(e) => {
            if matches!(unit.order, crate::units::OrderKind::AttackUnit) {
                return UnitCommand::Hold;
            }
            proof {
                lemma_filtered_enemy_listed(unit.pos, enemies@, 80,
                    enemies@.len() as int, e);
            }
            UnitCommand::AttackUnit(e.id)
        },
        None => {
            match squad_target {
                Some(t) => attack_move_to_position(unit, t),
                None => UnitCommand::Hold,
            }
        },
    }
}

/// An enemy drawn from a radius filter is one of the listed enemies.
proof fn lemma_filtered_enemy_listed(
    pos: (i32, i32), es: Seq<EnemyUnit>, radius: int, i: int, e: EnemyUnit,
)
    requires
        0 <= i <= es.len(),
        exists|j: int| 0 <= j < armed_within(pos, es, radius, i).len()
            && armed_within(pos, es, radius, i)[j] == e,
    ensures
        exists|j: int| 0 <= j < es.len() && (#[trigger] es[j]).id == e.id,
    decreases i,
{
    if i > 0 {
        let prev = armed_within(pos, es, radius, i - 1);
        let cur = armed_within(pos, es, radius, i);
        if cur != prev {
            let j = choose|j: int| 0 <= j < cur.len() && cur[j] == e;
            if j < cur.len() - 1 {
                lemma_filtered_enemy_listed(pos, es, radius, i - 1, e);
            } else {
                assert(es[i - 1] == e);
            }
        } else {
            lemma_filtered_enemy_listed(pos, es, radius, i - 1, e);
        }
    }
}

/// Like `lemma_filtered_enemy_listed`, for the unfiltered radius list.
proof fn lemma_any_enemy_listed(
    pos: (i32, i32), es: Seq<EnemyUnit>, radius: int, i: int, e: EnemyUnit,
)
    requires
        0 <= i <= es.len(),
        exists|j: int| 0 <= j < any_within(pos, es, radius, i).len()
            && any_within(pos, es, radius, i)[j] == e,
    ensures
        exists|j: int| 0 <= j < es.len() && (#[trigger] es[j]).id == e.id,
    decreases i,
{
    if i > 0 {
        let prev = any_within(pos, es, radius, i - 1);
        let cur = any_within(pos, es, radius, i);
        if cur != prev {
            let j = choose|j: int| 0 <= j < cur.len() && cur[j] == e;
            if j < cur.len() - 1 {
                lemma_any_enemy_listed(pos, es, radius, i - 1, e);
            } else {
                assert(es[i - 1] == e);
            }
        } else {
            lemma_any_enemy_listed(pos, es, radius, i - 1, e);
        }
    }
}

/// Like `lemma_filtered_enemy_listed`, for the worker radius list.
proof fn lemma_worker_enemy_listed(
    pos: (i32, i32), es: Seq<EnemyUnit>, radius: int, i: int, e: EnemyUnit,
)
    requires
        0 <= i <= es.len(),
        exists|j: int| 0 <= j < workers_within(pos, es, radius, i).len()
            && workers_within(pos, es, radius, i)[j] == e,
    ensures
        exists|j: int| 0 <= j < es.len() && (#[trigger] es[j]).id == e.id,
    decreases i,
{
    if i > 0 {
        let prev = workers_within(pos, es, radius, i - 1);
        let cur = workers_within(pos, es, radius, i);
        if cur != prev {
            let j = choose|j: int| 0 <= j < cur.len() && cur[j] == e;
            if j < cur.len() - 1 {
                lemma_worker_enemy_listed(pos, es, radius, i - 1, e);
            } else {
                assert(es[i - 1] == e);
            }
        } else {
            lemma_worker_enemy_listed(pos, es, radius, i - 1, e);
        }
    }
}

/// Worker harassment for one squad member: engage a hostile adjacent to the
/// unit, else a worker near the squad's shared target when in reach, else
/// steer aggressively around threats.  Nothing is returned when none of the
/// three applies.
pub fn attack_nearby_worker(
    grid: &crate::pathfinder::WalkGrid,
    unit: &OwnUnit,
    enemies: &Vec<EnemyUnit>,
    workers_near_squad_target: &Vec<EnemyUnit>,
) -> (r: Option<UnitCommand>)
    requires
        grid.wf(),
        crate::geom::coord_ok(unit.pos),
        unit.order_target_position matches Some(t) ==> crate::geom::coord_ok(t),
        forall|j: int| 0 <= j < enemies@.len()
            ==> crate::geom::coord_ok((#[trigger] enemies@[j]).pos)
                && 0 <= enemies@[j].ground_range < 10_000
                && 0 <= enemies@[j].air_range < 10_000,
    ensures
        r matches Some(UnitCommand::AttackUnit(id))
            ==> (exists|j: int| 0 <= j < enemies@.len()
                    && (#[trigger] enemies@[j]).id == id)
                || (exists|j: int| 0 <= j < workers_near_squad_target@.len()
                    && (#[trigger] workers_near_squad_target@[j]).id == id),
        r matches Some(UnitCommand::Move(x, y))
            ==> grid.walkable_px(x as int, y as int),
        // an armed hostile within sixty-four pixels draws an attack unless
        // the unit is already attacking
        armed_within(unit.pos, enemies@, 64, enemies@.len() as int).len() > 0
            && unit.order != crate::units::OrderKind::AttackUnit
            ==> (r matches Some(c) && c is AttackUnit),
        armed_within(unit.pos, enemies@, 64, enemies@.len() as int).len() > 0
            && unit.order == crate::units::OrderKind::AttackUnit
            ==> r == Some(UnitCommand::Hold),
{
    // hostiles adjacent to the unit
    let adjacent = get_enemies_within(enemies, unit.pos, 64);
    match closest_of(&adjacent, unit.pos) {
        Some(e) => {
            if matches!(unit.order, crate::units::OrderKind::AttackUnit) {
                return Some(UnitCommand::Hold);
            }
            proof {
                lemma_filtered_enemy_listed(unit.pos, enemies@, 64,
                    enemies@.len() as int, e);
            }
            return Some(UnitCommand::AttackUnit(e.id));
        },
        None => {},
    }

    // workers near the squad's shared objective, closest to this unit first
    match closest_of(workers_near_squad_target, unit.pos) {
        Some(w) => {
            let d2 = crate::geom::distance_squared(unit.pos, w.pos);
            if d2 < 80 * 80 {
                if matches!(unit.order, crate::units::OrderKind::AttackUnit) {
                    return Some(UnitCommand::Hold);
                }
                return Some(UnitCommand::AttackUnit(w.id));
            }
        },
        None => {},
    }

    // pre-emptive aggressive steering around any threats in range
    let moving = matches!(unit.order, crate::units::OrderKind::Move);
    match crate::steering::handle_threat_avoidance(
        grid, unit.pos, moving, unit.order_target_position, enemies, None,
        crate::steering::ThreatAvoidanceMode::Aggressive) {
        crate::steering::AvoidanceDecision::MoveTo(x, y) => Some(UnitCommand::Move(x, y)),
        crate::steering::AvoidanceDecision::HoldCourse => Some(UnitCommand::Hold),
        crate::steering::AvoidanceDecision::NoEscape => None,
        crate::steering::AvoidanceDecision::NoThreats => None,
    }
}

/// One attack-workers squad member while the squad attacks: worker
/// harassment first (hostiles adjacent, workers near the shared target,
/// aggressive steering), then kiting threat avoidance toward the path, then
/// the path advance.
pub fn attack_workers_attacking_control(
    grid: &crate::pathfinder::WalkGrid,
    unit: &OwnUnit,
    enemies: &Vec<EnemyUnit>,
    workers_near_squad_target: &Vec<EnemyUnit>,
    squad_target: Option<(i32, i32)>,
) -> (r: UnitCommand)
    requires
        grid.wf(),
        crate::geom::coord_ok(unit.pos),
        unit.order_target_position matches Some(t) ==> crate::geom::coord_ok(t),
        squad_target matches Some(t) ==> crate::geom::coord_ok(t),
        forall|j: int| 0 <= j < enemies@.len()
            ==> crate::geom::coord_ok((#[trigger] enemies@[j]).pos)
                && 0 <= enemies@[j].ground_range < 10_000
                && 0 <= enemies@[j].air_range < 10_000,
    ensures
        r matches UnitCommand::AttackUnit(id)
            ==> (exists|j: int| 0 <= j < enemies@.len()
                    && (#[trigger] enemies@[j]).id == id)
                || (exists|j: int| 0 <= j < workers_near_squad_target@.len()
                    && (#[trigger] workers_near_squad_target@[j]).id == id),
        // any steering move is walkable
        r matches UnitCommand::Move(x, y) ==> grid.walkable_px(x as int, y as int)
            || (squad_target matches Some(t) && (x, y) == t),
        // the adjacent engagement is owed, via the worker-harassment chain
        armed_within(unit.pos, enemies@, 64, enemies@.len() as int).len() > 0
            && unit.order != crate::units::OrderKind::AttackUnit
            ==> r is AttackUnit,
{
    match attack_nearby_worker(grid, unit, enemies, workers_near_squad_target) {
        Some(cmd) => {
            return cmd;
        },
        None => {},
    }

    // threat-avoidance steering with progress toward the objective
    let moving = matches!(unit.order, crate::units::OrderKind::Move);
    match crate::steering::handle_threat_avoidance(
        grid, unit.pos, moving, unit.order_target_position, enemies, squad_target,
        crate::steering::ThreatAvoidanceMode::Kiting) {
        crate::steering::AvoidanceDecision::MoveTo(x, y) => {
            return UnitCommand::Move(x, y);
        },
        crate::steering::AvoidanceDecision::HoldCourse => {
            return UnitCommand::Hold;
        },
        crate::steering::AvoidanceDecision::NoEscape => {},
        crate::steering::AvoidanceDecision::NoThreats => {},
    }

    // otherwise press along the path
    match squad_target {
        Some(t) => move_to_target(unit, t),
        None => UnitCommand::Hold,
    }
}

/// A defender: break off for any armed hostile within a short radius of the
/// defense point, else attack-move to the point.
pub fn defend_unit_control(
    unit: &OwnUnit,
    enemies: &Vec<EnemyUnit>,
    defense_point: (i32, i32),
) -> (r: UnitCommand)
    ensures
        command_targets_listed_enemy(r, enemies@),
        r matches UnitCommand::AttackMove(x, y) ==> (x, y) == defense_point,
        r is Move ==> false,
        // the defender breaks off for any armed hostile near the point and
        // otherwise holds the ground by attack-moving to it
        ({
            let near = armed_within(defense_point, enemies@, 100, enemies@.len() as int);
            &&& (near.len() > 0 && unit.order != crate::units::OrderKind::AttackUnit
                ==> r is AttackUnit)
            &&& (near.len() > 0 && unit.order == crate::units::OrderKind::AttackUnit
                ==> r == UnitCommand::Hold)
            &&& (near.len() == 0
                ==> r == (if unit.order == crate::units::OrderKind::AttackMove
                    && unit.order_target_position == Some(defense_point) {
                    UnitCommand::Hold
                } else {
                    UnitCommand::AttackMove(defense_point.0, defense_point.1)
                }))
        }),
{
    let near = get_enemies_within(enemies, defense_point, 100);
    match closest_of(&near, defense_point) {
        Some(e) => {
            if matches!(unit.order, crate::units::OrderKind::AttackUnit) {
                return UnitCommand::Hold;
            }
            proof {
                lemma_filtered_enemy_listed(defense_point, enemies@, 100,
                    enemies@.len() as int, e);
            }
            UnitCommand::AttackUnit(e.id)
        },
        None => attack_move_to_position(unit, defense_point),
    }
}

/// The center of the priority-two region closest to the base: defensible
/// ground to guard.
pub fn chokepoint_to_guard_base(
    regions: &Vec<crate::units::RegionInfo>,
    base: (i32, i32),
) -> (r: Option<(i32, i32)>)
    requires
        forall|j: int| 0 <= j < regions@.len() ==> {
            let g = #[trigger] regions@[j];
            -100_000 <= g.bounds_left <= 100_000
            && -100_000 <= g.bounds_right <= 100_000
            && -100_000 <= g.bounds_top <= 100_000
            && -100_000 <= g.bounds_bottom <= 100_000
        },
    ensures
        r matches Some(p) ==> exists|j: int| 0 <= j < regions@.len()
            && (#[trigger] regions@[j]).defense_priority == 2
            && p.0 as int == crate::geom::div_trunc(
                (regions@[j].bounds_left + regions@[j].bounds_right) as int, 2)
            && p.1 as int == crate::geom::div_trunc(
                (regions@[j].bounds_top + regions@[j].bounds_bottom) as int, 2),
        r is None ==> forall|j: int| 0 <= j < regions@.len()
            ==> (#[trigger] regions@[j]).defense_priority != 2,
{
    let n = regions.len();
    let mut best: Option<(i32, i32)> = None;
    let mut best_d2: i128 = 0;
    let mut i: usize = 0;
    while i < n
        invariant
            n == regions@.len(),
            i <= n,
            forall|j: int| 0 <= j < regions@.len() ==> {
                let g = #[trigger] regions@[j];
                -100_000 <= g.bounds_left <= 100_000
                && -100_000 <= g.bounds_right <= 100_000
                && -100_000 <= g.bounds_top <= 100_000
                && -100_000 <= g.bounds_bottom <= 100_000
            },
            best matches Some(p) ==> exists|j: int| 0 <= j < regions@.len()
                && (#[trigger] regions@[j]).defense_priority == 2
                && p.0 as int == crate::geom::div_trunc(
                    (regions@[j].bounds_left + regions@[j].bounds_right) as int, 2)
                && p.1 as int == crate::geom::div_trunc(
                    (regions@[j].bounds_top + regions@[j].bounds_bottom) as int, 2),
            best is None ==> forall|j: int| 0 <= j < i
                ==> (#[trigger] regions@[j]).defense_priority != 2,
        decreases n - i,
    {
        let g = &regions[i];
        if g.defense_priority == 2 {
            let sum_x: i64 = g.bounds_left as i64 + g.bounds_right as i64;
            let sum_y: i64 = g.bounds_top as i64 + g.bounds_bottom as i64;
            let cx: i32 = (crate::geom::div_i128(sum_x as i128, 2)) as i32;
            let cy: i32 = (crate::geom::div_i128(sum_y as i128, 2)) as i32;
            proof {
                assert(regions@[i as int].defense_priority == 2);
            }
            let d2 = crate::geom::distance_squared((cx, cy), base);
            let take = match best {
                Some(_) => d2 < best_d2,
                None => true,
            };
            if take {
                best = Some((cx, cy));
                best_d2 = d2;
                proof {
                    let g2 = regions@[i as int];
                    assert(g2.defense_priority == 2);
                    assert(sum_x as int == (g2.bounds_left + g2.bounds_right) as int);
                    assert(sum_y as int == (g2.bounds_top + g2.bounds_bottom) as int);
                    assert(cx as int == crate::geom::div_trunc(sum_x as int, 2));
                    assert(cy as int == crate::geom::div_trunc(sum_y as int, 2));
                }
            }
        }
        i += 1;
    }
    best
}

} // verus!

verus! {

/// Creates the opening attack-workers squad: its path runs from the player's
/// start toward the enemy's resource-cluster centroid, with the rally point
/// halfway along; it gathers until four members stand at the rally.
pub fn create_initial_attack_workers_squad(
    grid: &crate::pathfinder::WalkGrid,
    start_tiles: &Vec<(i32, i32)>,
    self_start_index: usize,
    static_minerals: &Vec<crate::units::ResourceNode>,
) -> (r: MilitarySquad)
    requires
        grid.wf(),
        forall|j: int| 0 <= j < start_tiles@.len()
            ==> 0 <= (#[trigger] start_tiles@[j]).0 <= 1024
                && 0 <= start_tiles@[j].1 <= 1024,
    ensures
        r.wf(),
        r.role == SquadRole::AttackWorkers,
        r.status == SquadStatus::Gathering,
        r.assigned_unit_ids@.len() == 0,
        r.required_units_near_leader == 4,
{
    let empty = MilitarySquad {
        name: "Main Squad".to_owned(),
        role: SquadRole::AttackWorkers,
        status: SquadStatus::Gathering,
        assigned_unit_ids: Vec::new(),
        target_position: None,
        target_path: None,
        target_path_index: None,
        leader_unit_id: None,
        required_units_near_leader: 4,
        unit_path_assignments: crate::ledger::IdMap::new(),
    };

    if self_start_index >= start_tiles.len() {
        return empty;
    }
    let my_tile = start_tiles[self_start_index];

    // the first start location that is not ours
    let mut enemy_tile: Option<(i32, i32)> = None;
    let mut i: usize = 0;
    while i < start_tiles.len()
        invariant
            i <= start_tiles@.len(),
            forall|j: int| 0 <= j < start_tiles@.len()
                ==> 0 <= (#[trigger] start_tiles@[j]).0 <= 1024
                    && 0 <= start_tiles@[j].1 <= 1024,
            enemy_tile matches Some(t) ==> 0 <= t.0 <= 1024 && 0 <= t.1 <= 1024,
        decreases start_tiles@.len() - i,
    {
        let t = start_tiles[i];
        if matches!(enemy_tile, None) && (t.0 != my_tile.0 || t.1 != my_tile.1) {
            proof {
                assert(start_tiles@[i as int] == t);
            }
            enemy_tile = Some(t);
        }
        i += 1;
    }
    let enemy_tile = match enemy_tile {
        Some(t) => t,
        None => {
            return empty;
        },
    };

    // the enemy resource cluster's centroid, or the start itself
    let enemy_px: (i32, i32) = (enemy_tile.0 * 32, enemy_tile.1 * 32);
    let mut cnt: usize = 0;
    let mut sx: i128 = 0;
    let mut sy: i128 = 0;
    let mut mi: usize = 0;
    while mi < static_minerals.len()
        invariant
            mi <= static_minerals@.len(),
            cnt <= mi,
            -0x8000_0000 * (cnt as int) <= sx <= 0x8000_0000 * (cnt as int),
            -0x8000_0000 * (cnt as int) <= sy <= 0x8000_0000 * (cnt as int),
        decreases static_minerals@.len() - mi,
    {
        let m = static_minerals[mi];
        if m.pos.0 > -0x4000_0000 && m.pos.0 < 0x4000_0000
            && m.pos.1 > -0x4000_0000 && m.pos.1 < 0x4000_0000 {
            let dx0: i64 = m.pos.0 as i64 - enemy_px.0 as i64;
            let dy0: i64 = m.pos.1 as i64 - enemy_px.1 as i64;
            let dx: i64 = if dx0 < 0 { -dx0 } else { dx0 };
            let dy: i64 = if dy0 < 0 { -dy0 } else { dy0 };
            if dx <= 300 && dy <= 300 {
                proof {
                    assert(-0x8000_0000 * ((cnt as int) + 1)
                        <= sx + (m.pos.0 as int)
                        <= 0x8000_0000 * ((cnt as int) + 1)
                        && -0x8000_0000 * ((cnt as int) + 1)
                        <= sy + (m.pos.1 as int)
                        <= 0x8000_0000 * ((cnt as int) + 1)) by (nonlinear_arith)
                        requires
                            -0x8000_0000 * (cnt as int) <= sx
                                <= 0x8000_0000 * (cnt as int),
                            -0x8000_0000 * (cnt as int) <= sy
                                <= 0x8000_0000 * (cnt as int),
                            -0x8000_0000 <= (m.pos.0 as int) <= 0x8000_0000,
                            -0x8000_0000 <= (m.pos.1 as int) <= 0x8000_0000,
                            0 <= cnt <= 0xFFFF_FFFF_FFFF_FFFF;
                }
                cnt += 1;
                sx += m.pos.0 as i128;
                sy += m.pos.1 as i128;
            }
        }
        mi += 1;
    }
    let objective: (i32, i32) = if cnt > 0 {
        proof {
            crate::steering::lemma_div_trunc_bound(sx as int, cnt as int, 0x8000_0000);
            crate::steering::lemma_div_trunc_bound(sy as int, cnt as int, 0x8000_0000);
        }
        let ax = crate::geom::div_i128(sx, cnt as i128);
        let ay = crate::geom::div_i128(sy, cnt as i128);
        (ax as i32, ay as i32)
    } else {
        enemy_px
    };

    let my_px: (i32, i32) = (my_tile.0 * 32, my_tile.1 * 32);
    if !grid.is_walkable_px(my_px.0, my_px.1) && !(my_px.0 >= 0 && my_px.1 >= 0
        && my_px.0 < (grid.width * 8) as i32 && my_px.1 < (grid.height * 8) as i32) {
        return empty;
    }
    if !(my_px.0 >= 0 && my_px.1 >= 0
        && my_px.0 < (grid.width * 8) as i32 && my_px.1 < (grid.height * 8) as i32) {
        return empty;
    }
    let path = crate::pathfinder::get_path_between_points(grid, my_px, objective, None);

    match path {
        Some(p) => {
            let goal = p.len() / 2;
            proof {
                assert(goal <= p@.len());
            }
            MilitarySquad {
                name: "Main Squad".to_owned(),
                role: SquadRole::AttackWorkers,
                status: SquadStatus::Gathering,
                assigned_unit_ids: Vec::new(),
                target_position: None,
                target_path: Some(p),
                target_path_index: Some(goal),
                leader_unit_id: None,
                required_units_near_leader: 4,
                unit_path_assignments: crate::ledger::IdMap::new(),
            }
        },
        None => empty,
    }
}

/// The chokepoint to defend: the priority-two region center closest to the
/// path from the most advanced claimed expansion toward the enemy start.
/// Nothing when no expansion is claimed, no other start exists, no path is
/// found, or no such region exists.
pub fn calculate_defense_point(
    grid: &crate::pathfinder::WalkGrid,
    build_order: &Vec<crate::build_order::BuildOrderItem>,
    build_order_index: usize,
    base_locations: &Vec<(i32, i32)>,
    start_tiles: &Vec<(i32, i32)>,
    self_start_index: usize,
    regions: &Vec<crate::units::RegionInfo>,
) -> (r: Option<(i32, i32)>)
    requires
        grid.wf(),
        forall|j: int| 0 <= j < base_locations@.len()
            ==> 0 <= (#[trigger] base_locations@[j]).0 <= 1024
                && 0 <= base_locations@[j].1 <= 1024,
        forall|j: int| 0 <= j < start_tiles@.len()
            ==> 0 <= (#[trigger] start_tiles@[j]).0 <= 1024
                && 0 <= start_tiles@[j].1 <= 1024,
        forall|j: int| 0 <= j < regions@.len() ==> {
            let g = #[trigger] regions@[j];
            -100_000 <= g.bounds_left <= 100_000
            && -100_000 <= g.bounds_right <= 100_000
            && -100_000 <= g.bounds_top <= 100_000
            && -100_000 <= g.bounds_bottom <= 100_000
        },
    ensures
        r matches Some(p) ==> exists|j: int| 0 <= j < regions@.len()
            && (#[trigger] regions@[j]).defense_priority == 2
            && p.0 as int == crate::geom::div_trunc(
                (regions@[j].bounds_left + regions@[j].bounds_right) as int, 2)
            && p.1 as int == crate::geom::div_trunc(
                (regions@[j].bounds_top + regions@[j].bounds_bottom) as int, 2),
{
    // the most advanced expansion claimed so far
    let mut best_base: Option<usize> = None;
    let mut bi: usize = 0;
    while bi < build_order.len() && bi < build_order_index
        invariant
            bi <= build_order@.len(),
        decreases build_order@.len() - bi,
    {
        match &build_order[bi] {
            crate::build_order::BuildOrderItem::Unit {
                unit_type, base_index: Some(ix) } => {
                if matches!(unit_type, crate::units::UnitKind::Hatchery) {
                    let better = match best_base {
                        Some(b) => *ix > b,
                        None => true,
                    };
                    if better {
                        best_base = Some(*ix);
                    }
                }
            },
            _ => {},
        }
        bi += 1;
    }
    let base_ix = match best_base {
        Some(b) => b,
        None => {
            return None;
        },
    };
    if base_ix >= base_locations.len() {
        return None;
    }
    let base_tile = base_locations[base_ix];
    proof {
        assert(base_locations@[base_ix as int] == base_tile);
    }

    if self_start_index >= start_tiles.len() {
        return None;
    }
    let my_tile = start_tiles[self_start_index];
    let mut enemy_tile: Option<(i32, i32)> = None;
    let mut i: usize = 0;
    while i < start_tiles.len()
        invariant
            i <= start_tiles@.len(),
            forall|j: int| 0 <= j < start_tiles@.len()
                ==> 0 <= (#[trigger] start_tiles@[j]).0 <= 1024
                    && 0 <= start_tiles@[j].1 <= 1024,
            enemy_tile matches Some(t) ==> 0 <= t.0 <= 1024 && 0 <= t.1 <= 1024,
        decreases start_tiles@.len() - i,
    {
        let t = start_tiles[i];
        if matches!(enemy_tile, None) && (t.0 != my_tile.0 || t.1 != my_tile.1) {
            proof {
                assert(start_tiles@[i as int] == t);
            }
            enemy_tile = Some(t);
        }
        i += 1;
    }
    let enemy_tile = match enemy_tile {
        Some(t) => t,
        None => {
            return None;
        },
    };

    let from_px: (i32, i32) = (base_tile.0 * 32, base_tile.1 * 32);
    let to_px: (i32, i32) = (enemy_tile.0 * 32, enemy_tile.1 * 32);
    if !(from_px.0 >= 0 && from_px.1 >= 0
        && from_px.0 < (grid.width * 8) as i32 && from_px.1 < (grid.height * 8) as i32) {
        return None;
    }
    let path = match crate::pathfinder::get_path_between_points(grid, from_px, to_px, None) {
        Some(p) => p,
        None => {
            return None;
        },
    };

    // the priority-two region center nearest any path waypoint
    let mut best: Option<(i32, i32)> = None;
    let mut best_d2: i128 = 0;
    let mut gi: usize = 0;
    while gi < regions.len()
        invariant
            gi <= regions@.len(),
            forall|j: int| 0 <= j < regions@.len() ==> {
                let g = #[trigger] regions@[j];
                -100_000 <= g.bounds_left <= 100_000
                && -100_000 <= g.bounds_right <= 100_000
                && -100_000 <= g.bounds_top <= 100_000
                && -100_000 <= g.bounds_bottom <= 100_000
            },
            best matches Some(p) ==> exists|j: int| 0 <= j < regions@.len()
                && (#[trigger] regions@[j]).defense_priority == 2
                && p.0 as int == crate::geom::div_trunc(
                    (regions@[j].bounds_left + regions@[j].bounds_right) as int, 2)
                && p.1 as int == crate::geom::div_trunc(
                    (regions@[j].bounds_top + regions@[j].bounds_bottom) as int, 2),
        decreases regions@.len() - gi,
    {
        let g = &regions[gi];
        if g.defense_priority == 2 {
            let sum_x: i64 = g.bounds_left as i64 + g.bounds_right as i64;
            let sum_y: i64 = g.bounds_top as i64 + g.bounds_bottom as i64;
            let cx: i32 = (crate::geom::div_i128(sum_x as i128, 2)) as i32;
            let cy: i32 = (crate::geom::div_i128(sum_y as i128, 2)) as i32;
            // distance from the center to the nearest waypoint
            let mut d2: i128 = 0x7FFF_FFFF_FFFF_FFFF;
            let mut pi: usize = 0;
            while pi < path.len()
                invariant
                    pi <= path@.len(),
                decreases path@.len() - pi,
            {
                let w = crate::geom::distance_squared((cx, cy), path[pi]);
                if w < d2 {
                    d2 = w;
                }
                pi += 1;
            }
            let take = match best {
                Some(_) => d2 < best_d2,
                None => true,
            };
            if take {
                proof {
                    let g2 = regions@[gi as int];
                    assert(g2.defense_priority == 2);
                    assert(sum_x as int == (g2.bounds_left + g2.bounds_right) as int);
                    assert(sum_y as int == (g2.bounds_top + g2.bounds_bottom) as int);
                }
                best = Some((cx, cy));
                best_d2 = d2;
            }
        }
        gi += 1;
    }
    best
}

} // verus!
