//! Build-order progression: a linear queue of production, research and
//! squad-creation goals, advanced by a cursor.
//!
//! The cursor moves forward only, never past the end of the queue.  Progress
//! is committed when production is observed to start, not when it completes:
//! a larva's disappearance (morphing changes entity identity), a structure
//! observed under construction, or a producer observed researching.  Past the
//! end, a reactive fallback queues supply, economy or combat units.

use vstd::prelude::*;
use crate::units::{UnitKind, UpgradeKind, OwnUnit};
use crate::ledger::{IdMap, WorkerAssignment};
use crate::squads::{SquadRole, SquadStatus};

verus! {

/// One goal of the build order.
#[derive(Clone, Debug)]
pub enum BuildOrderItem {
    Unit { unit_type: UnitKind, base_index: Option<usize> },
    Upgrade(UpgradeKind),
    Squad { name: String, role: SquadRole, status: SquadStatus },
}

impl BuildOrderItem {
    /// A production goal without a designated base.
    pub fn unit(unit_type: UnitKind) -> (r: BuildOrderItem)
        ensures
            r == (BuildOrderItem::Unit { unit_type, base_index: None::<usize> }),
    {
        BuildOrderItem::Unit { unit_type, base_index: None }
    }

    /// A production goal at a designated base slot: 0 is the starting
    /// location, 1 the natural expansion, and so on.
    pub fn unit_at_base(unit_type: UnitKind, base_index: usize) -> (r: BuildOrderItem)
        ensures
            r == (BuildOrderItem::Unit { unit_type, base_index: Some(base_index) }),
    {
        BuildOrderItem::Unit { unit_type, base_index: Some(base_index) }
    }

    /// A squad-creation goal.
    pub fn squad(name: String, role: SquadRole, status: SquadStatus) -> (r: BuildOrderItem)
        ensures
            r matches BuildOrderItem::Squad { name: n, role: ro, status: st }
                && n@ == name@ && ro == role && st == status,
    {
        BuildOrderItem::Squad { name, role, status }
    }
}

/// Whether some unit in the list carries this id.
pub open spec fn has_unit_id(units: Seq<OwnUnit>, id: usize) -> bool {
    exists|i: int| 0 <= i < units.len() && (#[trigger] units[i]).id == id
}

/// Whether some listed id equals `id`.
pub open spec fn has_id(ids: Seq<usize>, id: usize) -> bool {
    exists|i: int| 0 <= i < ids.len() && #[trigger] ids[i] == id
}

/// Whether some pair in the list is keyed by `k`.
pub open spec fn has_key_in(pairs: Seq<(usize, usize)>, k: usize) -> bool {
    exists|i: int| 0 <= i < pairs.len() && (#[trigger] pairs[i]).0 == k
}

/// Whether a worker record serves build-order index `ix`.
pub open spec fn has_worker_assignment_for_index(
    m: &IdMap<WorkerAssignment>, ix: usize,
) -> bool {
    exists|i: int| 0 <= i < m.entries@.len()
        && (#[trigger] m.entries@[i]).1.build_order_index == Some(ix)
}

/// Whether the player owns an incomplete unit of kind `k`.
pub open spec fn has_incomplete_of_kind(units: Seq<OwnUnit>, k: UnitKind) -> bool {
    exists|i: int| 0 <= i < units.len() && (#[trigger] units[i]).kind == k
        && !units[i].is_completed
}

/// Every recorded responsibility points into the build order.
pub open spec fn responsibilities_in_range(m: &IdMap<usize>, len: usize) -> bool {
    forall|i: int| 0 <= i < m.entries@.len() ==> (#[trigger] m.entries@[i]).1 < len
}

/// Reconciles larva commitments against the ground truth: a commitment whose
/// larva no longer exists is treated as morphed and dropped; it advances the
/// cursor by one only if its recorded index equals the cursor, so a stale
/// record for an already-passed index never re-advances.
///
/// The cursor never moves backward and never exceeds the queue length.
pub fn advance_build_order_for_morphed_larvae(
    live_larva_ids: &Vec<usize>,
    responsibilities: &mut IdMap<usize>,
    build_order_len: usize,
    cursor: &mut usize,
)
    requires
        old(responsibilities).wf(),
        responsibilities_in_range(old(responsibilities), build_order_len),
        *old(cursor) <= build_order_len,
    ensures
        final(responsibilities).wf(),
        responsibilities_in_range(final(responsibilities), build_order_len),
        *old(cursor) <= *final(cursor) <= build_order_len,
        // every surviving commitment belongs to a larva that still exists
        forall|k: usize, v: usize| #[trigger] final(responsibilities).has_pair(k, v)
            ==> has_id(live_larva_ids@, k) && old(responsibilities).has_pair(k, v),
        // commitments of living larvae are kept
        forall|k: usize, v: usize| old(responsibilities).has_pair(k, v)
            && has_id(live_larva_ids@, k)
            ==> final(responsibilities).has_pair(k, v),
        // a vanished larva committed at the cursor advances it
        (exists|k: usize| old(responsibilities).has_pair(k, *old(cursor))
            && !has_id(live_larva_ids@, k)) && *old(cursor) < build_order_len
            ==> *final(cursor) > *old(cursor),
{
    // collect the commitments whose larva has disappeared
    let n = responsibilities.len();
    let mut morphed: Vec<(usize, usize)> = Vec::new();
    let mut i: usize = 0;
    while i < n
        invariant
            responsibilities.wf(),
            responsibilities == old(responsibilities),
            n == responsibilities.entries@.len(),
            i <= n,
            forall|d: int| 0 <= d < morphed@.len()
                ==> responsibilities.has_pair(
                    (#[trigger] morphed@[d]).0, morphed@[d].1)
                    && !has_id(live_larva_ids@, morphed@[d].0),
            forall|j: int| 0 <= j < i
                && !has_id(live_larva_ids@, (#[trigger] responsibilities.entries@[j]).0)
                ==> has_key_in(morphed@, responsibilities.entries@[j].0),
        decreases n - i,
    {
        let entry = responsibilities.entries[i];
        let mut alive = false;
        let mut j: usize = 0;
        while j < live_larva_ids.len()
            invariant
                j <= live_larva_ids@.len(),
                alive ==> has_id(live_larva_ids@, entry.0),
                !alive ==> forall|t: int| 0 <= t < j ==> live_larva_ids@[t] != entry.0,
            decreases live_larva_ids@.len() - j,
        {
            if live_larva_ids[j] == entry.0 {
                alive = true;
            }
            j += 1;
        }
        if !alive {
            let ghost pre = morphed@;
            morphed.push(entry);
            proof {
                assert(responsibilities.entries@[i as int] == entry);
                assert forall|jj: int| 0 <= jj < i + 1
                    && !has_id(live_larva_ids@,
                        (#[trigger] responsibilities.entries@[jj]).0)
                    implies has_key_in(morphed@, responsibilities.entries@[jj].0) by {
                    if jj < i {
                        let d = choose|d: int| 0 <= d < pre.len()
                            && (#[trigger] pre[d]).0 == responsibilities.entries@[jj].0;
                        assert((morphed@[d]).0 == responsibilities.entries@[jj].0);
                    } else {
                        assert((morphed@[morphed@.len() - 1]).0 == entry.0);
                    }
                }
            }
        } else {
            proof {
                assert(responsibilities.entries@[i as int] == entry);
            }
        }
        i += 1;
    }

    proof {
        // a dead commitment at the cursor leaves a witness in the dead list
        if exists|k: usize| responsibilities.has_pair(k, *old(cursor))
            && !has_id(live_larva_ids@, k) {
            let k = choose|k: usize| responsibilities.has_pair(k, *old(cursor))
                && !has_id(live_larva_ids@, k);
            let j = choose|j: int| 0 <= j < responsibilities.entries@.len()
                && responsibilities.entries@[j] == (k, *old(cursor));
            assert(has_key_in(morphed@, k));
            let dd = choose|dd: int| 0 <= dd < morphed@.len()
                && (#[trigger] morphed@[dd]).0 == k;
            let jj = choose|jj: int| 0 <= jj < responsibilities.entries@.len()
                && responsibilities.entries@[jj] == morphed@[dd];
            crate::ledger::lemma_ledger_key_unique(responsibilities, j, jj);
            assert(morphed@[dd].1 == *old(cursor));
        }
    }
    let ghost dead_at_cursor = exists|k: usize|
        old(responsibilities).has_pair(k, *old(cursor))
        && !has_id(live_larva_ids@, k);

    // drop them; each advances the cursor only from its own recorded index
    let m = morphed.len();
    let mut d: usize = 0;
    while d < m
        invariant
            dead_at_cursor == exists|k: usize|
                old(responsibilities).has_pair(k, *old(cursor))
                && !has_id(live_larva_ids@, k),
            (dead_at_cursor && *old(cursor) < build_order_len)
                ==> *cursor > *old(cursor)
                || exists|dd: int| d <= dd < morphed@.len()
                    && (#[trigger] morphed@[dd]).1 == *old(cursor),
            responsibilities.wf(),
            responsibilities_in_range(responsibilities, build_order_len),
            m == morphed@.len(),
            d <= m,
            *old(cursor) <= *cursor <= build_order_len,
            forall|dd: int| 0 <= dd < morphed@.len()
                ==> old(responsibilities).has_pair(
                    (#[trigger] morphed@[dd]).0, morphed@[dd].1)
                    && !has_id(live_larva_ids@, morphed@[dd].0),
            forall|jj: int| 0 <= jj < old(responsibilities).entries@.len()
                && !has_id(live_larva_ids@,
                    (#[trigger] old(responsibilities).entries@[jj]).0)
                ==> has_key_in(morphed@, old(responsibilities).entries@[jj].0),
            // pairs not named in the dead list are untouched
            forall|k: usize, v: usize| !has_key_in(morphed@, k)
                ==> (responsibilities.has_pair(k, v)
                    <==> old(responsibilities).has_pair(k, v)),
            // already-processed dead keys are gone
            forall|dd: int| 0 <= dd < d
                ==> !responsibilities.spec_contains_key((#[trigger] morphed@[dd]).0),
            // no new pairs appear
            forall|k: usize, v: usize| responsibilities.has_pair(k, v)
                ==> old(responsibilities).has_pair(k, v),
        decreases m - d,
    {
        let (larva_id, morphed_idx) = morphed[d];
        let ghost before = *responsibilities;
        responsibilities.remove(larva_id);
        proof {
            assert forall|ii: int| 0 <= ii < responsibilities.entries@.len()
                implies (#[trigger] responsibilities.entries@[ii]).1
                    < build_order_len by {
                let (k, v) = responsibilities.entries@[ii];
                assert(responsibilities.has_pair(k, v));
                assert(before.has_pair(k, v));
                let jj = choose|jj: int| 0 <= jj < before.entries@.len()
                    && before.entries@[jj] == (k, v);
            }
            assert forall|dd: int| 0 <= dd < d + 1
                implies !responsibilities.spec_contains_key(
                    (#[trigger] morphed@[dd]).0) by {
                if morphed@[dd].0 != larva_id {
                    assert(!old(responsibilities).spec_contains_key(morphed@[dd].0)
                        || responsibilities.spec_contains_key(morphed@[dd].0)
                        == false) by {
                    }
                }
            }
        }
        if morphed_idx == *cursor && *cursor < build_order_len {
            proof {
                assert(old(responsibilities).has_pair(larva_id, morphed_idx));
            }
            *cursor += 1;
        }
        proof {
            // a pending dead-at-cursor witness either just fired or waits
            // further down the dead list
            if dead_at_cursor && *old(cursor) < build_order_len
                && !(*cursor > *old(cursor)) {
                let dd = choose|dd: int| d <= dd < morphed@.len()
                    && (#[trigger] morphed@[dd]).1 == *old(cursor);
                assert(dd != d);
                assert(d + 1 <= dd < morphed@.len()
                    && morphed@[dd].1 == *old(cursor));
            }
        }
        d += 1;
    }

    proof {
        assert forall|k: usize, v: usize|
            #[trigger] responsibilities.has_pair(k, v)
            implies has_id(live_larva_ids@, k)
                && old(responsibilities).has_pair(k, v) by {
            assert(old(responsibilities).has_pair(k, v));
            let jj = choose|jj: int| 0 <= jj < old(responsibilities).entries@.len()
                && old(responsibilities).entries@[jj] == (k, v);
            if !has_id(live_larva_ids@, k) {
                assert(has_key_in(morphed@, k));
                let dd = choose|dd: int| 0 <= dd < morphed@.len()
                    && (#[trigger] morphed@[dd]).0 == k;
                assert(!responsibilities.spec_contains_key(morphed@[dd].0));
            }
        }
    }
}

/// Whether a living worker's record still serves build-order index `ix`.
pub open spec fn has_live_worker_assignment_for_index(
    m: &IdMap<WorkerAssignment>, ix: usize, my_units: Seq<OwnUnit>,
) -> bool {
    exists|i: int| 0 <= i < m.entries@.len()
        && (#[trigger] m.entries@[i]).1.build_order_index == Some(ix)
        && has_unit_id(my_units, m.entries@[i].0)
}

/// Whether the cursor's current item is a structure whose construction has
/// been observed to start while no living worker still serves that index:
/// the committed drone has morphed into the structure, so the cursor moves.
pub open spec fn building_start_observed(
    build_order: Seq<BuildOrderItem>,
    cursor: usize,
    my_units: Seq<OwnUnit>,
    worker_assignments: &IdMap<WorkerAssignment>,
) -> bool {
    cursor < build_order.len()
    && (build_order[cursor as int] matches BuildOrderItem::Unit { unit_type, .. }
        && crate::units::spec_is_building(unit_type)
        && has_incomplete_of_kind(my_units, unit_type)
        && !has_live_worker_assignment_for_index(worker_assignments, cursor, my_units))
}

/// Advances the cursor once construction of the current structure is
/// observed (committed at start, not completion) and the worker record that
/// served it is gone.  The cursor never moves backward and never exceeds the
/// queue length.
pub fn advance_build_order_if_building_building(
    build_order: &Vec<BuildOrderItem>,
    cursor: &mut usize,
    my_units: &Vec<OwnUnit>,
    worker_assignments: &IdMap<WorkerAssignment>,
)
    requires
        *old(cursor) <= build_order@.len(),
    ensures
        *old(cursor) <= *final(cursor) <= build_order@.len(),
        building_start_observed(build_order@, *old(cursor), my_units@, worker_assignments)
            ==> *final(cursor) == *old(cursor) + 1,
        !building_start_observed(build_order@, *old(cursor), my_units@, worker_assignments)
            ==> *final(cursor) == *old(cursor),
{
    if *cursor >= build_order.len() {
        return;
    }
    let current_kind = match &build_order[*cursor] {
        BuildOrderItem::Unit { unit_type, .. } => *unit_type,
        _ => {
            return;
        },
    };
    if !crate::units::is_building(current_kind) {
        return;
    }

    let mut morphing_seen = false;
    let mut i: usize = 0;
    while i < my_units.len()
        invariant
            i <= my_units@.len(),
            morphing_seen ==> has_incomplete_of_kind(my_units@, current_kind),
            !morphing_seen ==> forall|j: int| 0 <= j < i
                ==> !((#[trigger] my_units@[j]).kind == current_kind
                    && !my_units@[j].is_completed),
        decreases my_units@.len() - i,
    {
        let u = &my_units[i];
        if u.kind == current_kind && !u.is_completed {
            morphing_seen = true;
        }
        i += 1;
    }
    if !morphing_seen {
        return;
    }

    let mut has_assignment = false;
    let mut j: usize = 0;
    let n = worker_assignments.entries.len();
    while j < n
        invariant
            n == worker_assignments.entries@.len(),
            j <= n,
            has_assignment ==> has_live_worker_assignment_for_index(
                worker_assignments, *cursor, my_units@),
            !has_assignment ==> forall|t: int| 0 <= t < j
                ==> !((#[trigger] worker_assignments.entries@[t]).1.build_order_index
                        == Some(*cursor)
                    && has_unit_id(my_units@, worker_assignments.entries@[t].0)),
        decreases n - j,
    {
        let (wid, a) = worker_assignments.entries[j];
        match a.build_order_index {
            Some(bi) => {
                if bi == *cursor {
                    // the record blocks only while its worker still exists
                    let mut alive = false;
                    let mut t: usize = 0;
                    while t < my_units.len()
                        invariant
                            t <= my_units@.len(),
                            alive ==> has_unit_id(my_units@, wid),
                            !alive ==> forall|s: int| 0 <= s < t
                                ==> (#[trigger] my_units@[s]).id != wid,
                        decreases my_units@.len() - t,
                    {
                        if my_units[t].id == wid {
                            alive = true;
                        }
                        t += 1;
                    }
                    if alive {
                        proof {
                            assert((worker_assignments.entries@[j as int]).0 == wid);
                        }
                        has_assignment = true;
                    }
                }
            },
            None => {},
        }
        j += 1;
    }
    if has_assignment {
        return;
    }

    *cursor += 1;
}

/// The reactive fallback once the queue is exhausted: what to queue next.
///
/// Low spare supply with no supply producer in flight queues a supply unit;
/// a short economy queues an economic unit; otherwise a basic combat unit.
pub open spec fn spec_fallback_item(
    supply_remaining: int,
    overlord_egg_exists: bool,
    drone_count: int,
) -> UnitKind {
    if supply_remaining < 4 && !overlord_egg_exists {
        UnitKind::Overlord
    } else if drone_count < 20 {
        UnitKind::Drone
    } else {
        UnitKind::Zergling
    }
}

/// Whether an egg morphing into an overlord exists.
pub open spec fn overlord_in_production(units: Seq<OwnUnit>) -> bool {
    exists|i: int| 0 <= i < units.len() && (#[trigger] units[i]).kind == UnitKind::Egg
        && units[i].build_type == UnitKind::Overlord
}

/// Number of drones in the list (first `i` entries).
pub open spec fn count_drones(units: Seq<OwnUnit>, i: int) -> int
    decreases i,
{
    if i <= 0 {
        0
    } else {
        count_drones(units, i - 1)
            + if units[i - 1].kind == UnitKind::Drone { 1int } else { 0int }
    }
}

/// Appends the fallback item for the observed situation to the queue.
pub fn figure_out_what_to_build(
    player: &crate::units::PlayerInfo,
    my_units: &Vec<OwnUnit>,
    build_order: &mut Vec<BuildOrderItem>,
)
    requires
        -0x1000_0000 < player.supply_total < 0x1000_0000,
        -0x1000_0000 < player.supply_used < 0x1000_0000,
    ensures
        final(build_order)@.len() == old(build_order)@.len() + 1,
        forall|i: int| 0 <= i < old(build_order)@.len()
            ==> final(build_order)@[i] == old(build_order)@[i],
        final(build_order)@[old(build_order)@.len() as int]
            == (BuildOrderItem::Unit {
                unit_type: spec_fallback_item(
                    player.supply_total - player.supply_used,
                    overlord_in_production(my_units@),
                    count_drones(my_units@, my_units@.len() as int)),
                base_index: None::<usize>,
            }),
{
    let supply_remaining = player.supply_total - player.supply_used;

    let mut overlord_egg = false;
    let mut drones: usize = 0;
    let mut i: usize = 0;
    while i < my_units.len()
        invariant
            i <= my_units@.len(),
            overlord_egg == overlord_in_production(my_units@.subrange(0, i as int)),
            drones == count_drones(my_units@, i as int),
            drones <= i,
        decreases my_units@.len() - i,
    {
        let u = &my_units[i];
        let ghost pre = my_units@.subrange(0, i as int);
        if u.kind == UnitKind::Egg && u.build_type == UnitKind::Overlord {
            overlord_egg = true;
        }
        if u.kind == UnitKind::Drone {
            drones += 1;
        }
        i += 1;
        proof {
            let cur = my_units@.subrange(0, i as int);
            assert(cur.drop_last() =~= pre);
            assert(cur.last() == my_units@[i - 1]);
            if overlord_in_production(cur) {
                let w = choose|w: int| 0 <= w < cur.len()
                    && cur[w].kind == UnitKind::Egg
                    && cur[w].build_type == UnitKind::Overlord;
                if w < i - 1 {
                    assert(pre[w] == cur[w]);
                }
            }
            if overlord_in_production(pre) {
                let w = choose|w: int| 0 <= w < pre.len()
                    && pre[w].kind == UnitKind::Egg
                    && pre[w].build_type == UnitKind::Overlord;
                assert(cur[w] == pre[w]);
            }
        }
    }
    proof {
        assert(my_units@.subrange(0, my_units@.len() as int) =~= my_units@);
    }

    let kind = if supply_remaining < 4 && !overlord_egg {
        UnitKind::Overlord
    } else if drones < 20 {
        UnitKind::Drone
    } else {
        UnitKind::Zergling
    };
    build_order.push(BuildOrderItem::unit(kind));
}

} // verus!

verus! {

/// Whether some worker record is already building a structure of this kind.
pub open spec fn spec_is_building_current_building(
    build_order: Seq<BuildOrderItem>,
    assignments: &IdMap<WorkerAssignment>,
    building_type: UnitKind,
) -> bool {
    exists|i: int| 0 <= i < assignments.entries@.len() && {
        let a = (#[trigger] assignments.entries@[i]).1;
        a.assignment_type == crate::ledger::WorkerAssignmentType::Building
        && (a.build_order_index matches Some(bi) && bi < build_order.len()
            && (build_order[bi as int] matches BuildOrderItem::Unit { unit_type, .. }
                && unit_type == building_type))
    }
}

/// Decides `spec_is_building_current_building` exactly: whether a worker is
/// already committed to a build-order item of this structure kind.
pub fn is_building_current_building(
    build_order: &Vec<BuildOrderItem>,
    assignments: &IdMap<WorkerAssignment>,
    building_type: UnitKind,
) -> (r: bool)
    ensures
        r == spec_is_building_current_building(build_order@, assignments, building_type),
{
    let n = assignments.entries.len();
    let mut i: usize = 0;
    while i < n
        invariant
            n == assignments.entries@.len(),
            i <= n,
            forall|j: int| 0 <= j < i ==> !({
                let a = (#[trigger] assignments.entries@[j]).1;
                a.assignment_type == crate::ledger::WorkerAssignmentType::Building
                && (a.build_order_index matches Some(bi) && bi < build_order@.len()
                    && (build_order@[bi as int] matches BuildOrderItem::Unit {
                        unit_type, .. } && unit_type == building_type))
            }),
        decreases n - i,
    {
        let a = assignments.entries[i].1;
        if matches!(a.assignment_type, crate::ledger::WorkerAssignmentType::Building) {
            match a.build_order_index {
                Some(bi) => {
                    if bi < build_order.len() {
                        match &build_order[bi] {
                            BuildOrderItem::Unit { unit_type, .. } => {
                                if *unit_type == building_type {
                                    proof {
                                        let a2 = assignments.entries@[i as int].1;
                                        assert(a2.assignment_type
                                            == crate::ledger::WorkerAssignmentType::Building);
                                    }
                                    return true;
                                }
                            },
                            _ => {},
                        }
                    }
                },
                None => {},
            }
        }
        i += 1;
    }
    false
}

/// Whether the listed unit at index `i` is a larva free of any commitment.
pub open spec fn free_larva_at(
    units: Seq<OwnUnit>, responsibilities: &IdMap<usize>, i: int,
) -> bool {
    units[i].kind == UnitKind::Larva
        && !responsibilities.spec_contains_key(units[i].id)
}

/// The first larva of the list that carries no commitment yet; nothing only
/// when every listed larva is already committed.
pub fn select_larva(
    my_units: &Vec<OwnUnit>,
    responsibilities: &IdMap<usize>,
) -> (r: Option<usize>)
    requires
        responsibilities.wf(),
    ensures
        r matches Some(id) ==> exists|i: int| 0 <= i < my_units@.len()
            && (#[trigger] my_units@[i]).id == id
            && free_larva_at(my_units@, responsibilities, i)
            && forall|j: int| 0 <= j < i
                ==> !free_larva_at(my_units@, responsibilities, j),
        r matches Some(id) ==> !responsibilities.spec_contains_key(id),
        r is None ==> forall|i: int| 0 <= i < my_units@.len()
            ==> !free_larva_at(my_units@, responsibilities, i),
{
    let n = my_units.len();
    let mut i: usize = 0;
    while i < n
        invariant
            n == my_units@.len(),
            i <= n,
            responsibilities.wf(),
            forall|j: int| 0 <= j < i
                ==> !free_larva_at(my_units@, responsibilities, j),
        decreases n - i,
    {
        let u = &my_units[i];
        if matches!(u.kind, UnitKind::Larva) && !responsibilities.contains_key(u.id) {
            proof {
                assert(my_units@[i as int].id == u.id);
                assert(free_larva_at(my_units@, responsibilities, i as int));
            }
            return Some(u.id);
        }
        i += 1;
    }
    None
}

/// Records a larva's commitment to the build-order item under the cursor.
pub fn record_larva_commitment(
    responsibilities: &mut IdMap<usize>,
    larva_id: usize,
    cursor: usize,
    build_order_len: usize,
)
    requires
        old(responsibilities).wf(),
        responsibilities_in_range(old(responsibilities), build_order_len),
        cursor < build_order_len,
    ensures
        final(responsibilities).wf(),
        responsibilities_in_range(final(responsibilities), build_order_len),
        final(responsibilities).has_pair(larva_id, cursor),
        forall|k: usize, v: usize| k != larva_id
            ==> (final(responsibilities).has_pair(k, v)
                <==> old(responsibilities).has_pair(k, v)),
{
    responsibilities.insert(larva_id, cursor);
    proof {
        assert forall|i: int| 0 <= i < responsibilities.entries@.len()
            implies (#[trigger] responsibilities.entries@[i]).1 < build_order_len by {
            let (k, v) = responsibilities.entries@[i];
            assert(responsibilities.has_pair(k, v));
            if k != larva_id {
                let j = choose|j: int| 0 <= j < old(responsibilities).entries@.len()
                    && old(responsibilities).entries@[j] == (k, v);
            } else {
                assert(v == cursor);
            }
        }
    }
}

/// Whether the record gathers from some node.
pub open spec fn gathers_somewhere(a: WorkerAssignment) -> bool {
    a.assignment_type == crate::ledger::WorkerAssignmentType::Gathering
        && a.target_unit is Some
}

/// The worker gathering from the patch with the most co-assigned gatherers:
/// pulling it costs the least marginal throughput.  The chosen worker's
/// patch is at least as saturated as every other gathering target.
pub fn choose_drone_to_build(
    assignments: &IdMap<WorkerAssignment>,
) -> (r: Option<usize>)
    ensures
        r matches Some(wid) ==> exists|i: int|
            0 <= i < assignments.entries@.len()
            && (#[trigger] assignments.entries@[i]).0 == wid
            && gathers_somewhere(assignments.entries@[i].1)
            && forall|j: int| 0 <= j < assignments.entries@.len()
                && gathers_somewhere((#[trigger] assignments.entries@[j]).1)
                ==> crate::worker_alloc::count_gathering_at(assignments.entries@,
                        assignments.entries@[j].1.target_unit.unwrap())
                    <= crate::worker_alloc::count_gathering_at(assignments.entries@,
                        assignments.entries@[i].1.target_unit.unwrap()),
        r is None ==> forall|j: int| 0 <= j < assignments.entries@.len()
            ==> !gathers_somewhere((#[trigger] assignments.entries@[j]).1),
{
    // the most-saturated gathering target
    let n = assignments.entries.len();
    let mut best_target: Option<usize> = None;
    let mut best_count: usize = 0;
    let mut i: usize = 0;
    while i < n
        invariant
            n == assignments.entries@.len(),
            i <= n,
            best_target matches Some(t)
                ==> best_count == crate::worker_alloc::count_gathering_at(
                        assignments.entries@, t)
                    && exists|k: int| 0 <= k < assignments.entries@.len()
                        && gathers_somewhere((#[trigger] assignments.entries@[k]).1)
                        && assignments.entries@[k].1.target_unit == Some(t),
            best_target matches Some(t) ==> forall|j: int| 0 <= j < i
                && gathers_somewhere((#[trigger] assignments.entries@[j]).1)
                ==> crate::worker_alloc::count_gathering_at(assignments.entries@,
                        assignments.entries@[j].1.target_unit.unwrap())
                    <= best_count,
            best_target is None ==> forall|j: int| 0 <= j < i
                ==> !gathers_somewhere((#[trigger] assignments.entries@[j]).1),
        decreases n - i,
    {
        let a = assignments.entries[i].1;
        match (a.assignment_type, a.target_unit) {
            (crate::ledger::WorkerAssignmentType::Gathering, Some(t)) => {
                proof {
                    assert(gathers_somewhere((assignments.entries@[i as int]).1));
                    assert((assignments.entries@[i as int]).1.target_unit == Some(t));
                }
                let c = crate::worker_alloc::count_workers_at(assignments, t);
                let better = match best_target {
                    Some(_) => c > best_count,
                    None => true,
                };
                if better {
                    best_target = Some(t);
                    best_count = c;
                }
            },
            _ => {},
        }
        i += 1;
    }
    let target = match best_target {
        Some(t) => t,
        None => {
            return None;
        },
    };

    // a worker gathering from it
    let mut j: usize = 0;
    while j < n
        invariant
            n == assignments.entries@.len(),
            j <= n,
            best_count == crate::worker_alloc::count_gathering_at(
                assignments.entries@, target),
            exists|k: int| 0 <= k < assignments.entries@.len()
                && gathers_somewhere((#[trigger] assignments.entries@[k]).1)
                && assignments.entries@[k].1.target_unit == Some(target),
            forall|t: int| 0 <= t < j
                ==> !(gathers_somewhere((#[trigger] assignments.entries@[t]).1)
                    && assignments.entries@[t].1.target_unit == Some(target)),
            forall|t: int| 0 <= t < assignments.entries@.len()
                && gathers_somewhere((#[trigger] assignments.entries@[t]).1)
                ==> crate::worker_alloc::count_gathering_at(assignments.entries@,
                        assignments.entries@[t].1.target_unit.unwrap())
                    <= best_count,
        decreases n - j,
    {
        let (wid, a) = assignments.entries[j];
        match (a.assignment_type, a.target_unit) {
            (crate::ledger::WorkerAssignmentType::Gathering, Some(t)) => {
                if t == target {
                    proof {
                        assert((assignments.entries@[j as int]).0 == wid);
                        assert(gathers_somewhere((assignments.entries@[j as int]).1));
                        assert((assignments.entries@[j as int]).1.target_unit
                            == Some(target));
                    }
                    return Some(wid);
                }
                proof {
                    assert((assignments.entries@[j as int]).1.target_unit != Some(target));
                }
            },
            _ => {
                proof {
                    assert(!gathers_somewhere((assignments.entries@[j as int]).1));
                }
            },
        }
        j += 1;
    }
    proof {
        // the witness of a gatherer at the chosen target contradicts the
        // exhausted scan
        let k = choose|k: int| 0 <= k < assignments.entries@.len()
            && gathers_somewhere((#[trigger] assignments.entries@[k]).1)
            && assignments.entries@[k].1.target_unit == Some(target);
        assert(false);
    }
    None
}

/// Whether some producer record serves build-order index `ix`.
pub open spec fn has_building_assignment_for_index(
    m: &IdMap<crate::ledger::BuildingAssignment>, ix: usize,
) -> bool {
    exists|i: int| 0 <= i < m.entries@.len()
        && (#[trigger] m.entries@[i]).1.build_order_index == ix
}

/// Picks a producer of the required kind to morph into `unit_type` and
/// records the commitment: a completed, unassigned producer when one exists
/// (nearest the designated base when one is given), else an in-progress one
/// rather than stalling.  Returns the chosen producer's id.
pub fn assign_building_to_morph_into_building(
    my_units: &Vec<OwnUnit>,
    base_px: Option<(i32, i32)>,
    building_assignments: &mut IdMap<crate::ledger::BuildingAssignment>,
    unit_type: UnitKind,
    builder_type: UnitKind,
    current_build_idx: usize,
) -> (r: Option<usize>)
    requires
        old(building_assignments).wf(),
    ensures
        final(building_assignments).wf(),
        r matches Some(id) ==> {
            &&& exists|i: int| 0 <= i < my_units@.len()
                && (#[trigger] my_units@[i]).id == id
                && my_units@[i].kind == builder_type
            &&& !old(building_assignments).spec_contains_key(id)
            &&& final(building_assignments).has_pair(id,
                crate::ledger::BuildingAssignment {
                    assignment_type:
                        crate::ledger::BuildingAssignmentType::TrainUnit(unit_type),
                    build_order_index: current_build_idx,
                })
        },
        r is None ==> *final(building_assignments) == *old(building_assignments),
        // failure means every producer of the kind is already committed
        r is None ==> forall|i: int| 0 <= i < my_units@.len()
            && (#[trigger] my_units@[i]).kind == builder_type
            ==> old(building_assignments).spec_contains_key(my_units@[i].id),
        forall|k: usize, v: crate::ledger::BuildingAssignment|
            (r matches Some(id) && k != id) || r is None
            ==> (final(building_assignments).has_pair(k, v)
                <==> old(building_assignments).has_pair(k, v)),
{
    // candidate selection: completed first, nearest the designated base
    let n = my_units.len();
    let mut chosen: Option<usize> = None;
    let mut chosen_completed: bool = false;
    let mut chosen_d2: i128 = 0;
    let mut i: usize = 0;
    while i < n
        invariant
            n == my_units@.len(),
            i <= n,
            building_assignments.wf(),
            building_assignments == old(building_assignments),
            chosen matches Some(id) ==> !building_assignments.spec_contains_key(id)
                && exists|j: int| 0 <= j < my_units@.len()
                    && (#[trigger] my_units@[j]).id == id
                    && my_units@[j].kind == builder_type,
            chosen is None ==> forall|j: int| 0 <= j < i
                && (#[trigger] my_units@[j]).kind == builder_type
                ==> building_assignments.spec_contains_key(my_units@[j].id),
        decreases n - i,
    {
        let u = &my_units[i];
        if u.kind == builder_type && !building_assignments.contains_key(u.id) {
            let d2 = match base_px {
                Some(b) => crate::geom::distance_squared(u.pos, b),
                None => 0,
            };
            let take = match chosen {
                None => true,
                Some(_) => {
                    if u.is_completed && !chosen_completed {
                        true
                    } else if u.is_completed == chosen_completed {
                        match base_px {
                            Some(_) => d2 < chosen_d2,
                            None => false,
                        }
                    } else {
                        false
                    }
                },
            };
            if take {
                chosen = Some(u.id);
                chosen_completed = u.is_completed;
                chosen_d2 = d2;
                proof {
                    assert(my_units@[i as int].id == u.id
                        && my_units@[i as int].kind == builder_type);
                }
            }
        }
        i += 1;
    }

    match chosen {
        Some(id) => {
            building_assignments.insert(
                id, crate::ledger::BuildingAssignment::new(unit_type, current_build_idx));
            Some(id)
        },
        None => None,
    }
}

/// Whether the producer committed to the cursor's upgrade is observed
/// researching it.
pub open spec fn spec_has_started_current_upgrade(
    build_order: Seq<BuildOrderItem>,
    cursor: usize,
    building_assignments: &IdMap<crate::ledger::BuildingAssignment>,
    my_units: Seq<OwnUnit>,
) -> bool {
    cursor < build_order.len()
    && (build_order[cursor as int] matches BuildOrderItem::Upgrade(u)
        && exists|i: int| 0 <= i < building_assignments.entries@.len()
            && (#[trigger] building_assignments.entries@[i]).1.build_order_index == cursor
            && (crate::military::find_unit(my_units,
                building_assignments.entries@[i].0) matches Some(b)
                && b.is_upgrading && b.upgrade_in_progress == u))
}

/// Decides `spec_has_started_current_upgrade` exactly.
pub fn has_started_current_upgrade(
    build_order: &Vec<BuildOrderItem>,
    cursor: usize,
    building_assignments: &IdMap<crate::ledger::BuildingAssignment>,
    my_units: &Vec<OwnUnit>,
) -> (r: bool)
    ensures
        r == spec_has_started_current_upgrade(
            build_order@, cursor, building_assignments, my_units@),
{
    if cursor >= build_order.len() {
        return false;
    }
    let upgrade = match &build_order[cursor] {
        BuildOrderItem::Upgrade(u) => *u,
        _ => {
            return false;
        },
    };
    let n = building_assignments.entries.len();
    let mut i: usize = 0;
    while i < n
        invariant
            n == building_assignments.entries@.len(),
            i <= n,
            cursor < build_order@.len(),
            build_order@[cursor as int] matches BuildOrderItem::Upgrade(u) && u == upgrade,
            forall|j: int| 0 <= j < i ==> !(
                (#[trigger] building_assignments.entries@[j]).1.build_order_index == cursor
                && (crate::military::find_unit(my_units@,
                    building_assignments.entries@[j].0) matches Some(b)
                    && b.is_upgrading && b.upgrade_in_progress == upgrade)),
        decreases n - i,
    {
        let (bid, a) = building_assignments.entries[i];
        if a.build_order_index == cursor {
            match crate::military::lookup_unit(my_units, bid) {
                Some(b) => {
                    if b.is_upgrading && b.upgrade_in_progress == upgrade {
                        proof {
                            assert((building_assignments.entries@[i as int]).0 == bid);
                        }
                        return true;
                    }
                },
                None => {},
            }
        }
        i += 1;
    }
    false
}

/// Advances the cursor once the committed upgrade is observed to have
/// started.  The cursor never moves backward and never exceeds the queue.
pub fn check_and_advance_upgrade_if_started(
    build_order: &Vec<BuildOrderItem>,
    cursor: &mut usize,
    building_assignments: &IdMap<crate::ledger::BuildingAssignment>,
    my_units: &Vec<OwnUnit>,
)
    requires
        *old(cursor) <= build_order@.len(),
    ensures
        *old(cursor) <= *final(cursor) <= build_order@.len(),
        *final(cursor) as int == if spec_has_started_current_upgrade(
            build_order@, *old(cursor), building_assignments, my_units@) {
            *old(cursor) + 1
        } else {
            *old(cursor) as int
        },
{
    let len = build_order.len();
    if has_started_current_upgrade(build_order, *cursor, building_assignments, my_units) {
        proof {
            assert(*cursor < build_order@.len() && len == build_order@.len());
        }
        *cursor += 1;
    }
}

/// Commits a completed, idle producer of the upgrade's research structure to
/// researching it.  Returns the chosen producer's id.
pub fn assign_building_to_research_upgrade(
    my_units: &Vec<OwnUnit>,
    building_assignments: &mut IdMap<crate::ledger::BuildingAssignment>,
    upgrade: UpgradeKind,
    current_build_idx: usize,
) -> (r: Option<usize>)
    requires
        old(building_assignments).wf(),
    ensures
        final(building_assignments).wf(),
        r matches Some(id) ==> {
            &&& exists|i: int| 0 <= i < my_units@.len()
                && (#[trigger] my_units@[i]).id == id
                && my_units@[i].kind == crate::units::spec_what_upgrades(upgrade)
                && my_units@[i].is_completed && !my_units@[i].is_upgrading
            &&& final(building_assignments).has_pair(id,
                crate::ledger::BuildingAssignment {
                    assignment_type:
                        crate::ledger::BuildingAssignmentType::ResearchUpgrade(upgrade),
                    build_order_index: current_build_idx,
                })
        },
        r is None ==> *final(building_assignments) == *old(building_assignments),
        // failure means no completed, idle researcher of the right kind exists
        r is None ==> forall|i: int| 0 <= i < my_units@.len()
            ==> !((#[trigger] my_units@[i]).kind == crate::units::spec_what_upgrades(upgrade)
                && my_units@[i].is_completed && !my_units@[i].is_upgrading),
        forall|k: usize, v: crate::ledger::BuildingAssignment|
            (r matches Some(id) && k != id) || r is None
            ==> (final(building_assignments).has_pair(k, v)
                <==> old(building_assignments).has_pair(k, v)),
{
    let building_type = crate::units::what_upgrades(upgrade);
    let n = my_units.len();
    let mut i: usize = 0;
    while i < n
        invariant
            n == my_units@.len(),
            i <= n,
            building_assignments.wf(),
            building_assignments == old(building_assignments),
            building_type == crate::units::spec_what_upgrades(upgrade),
            forall|j: int| 0 <= j < i
                ==> !((#[trigger] my_units@[j]).kind == building_type
                    && my_units@[j].is_completed && !my_units@[j].is_upgrading),
        decreases n - i,
    {
        let u = &my_units[i];
        if u.kind == building_type && u.is_completed && !u.is_upgrading {
            proof {
                assert(my_units@[i as int].id == u.id
                    && my_units@[i as int].kind == building_type
                    && my_units@[i as int].is_completed
                    && !my_units@[i as int].is_upgrading);
            }
            building_assignments.insert(
                u.id,
                crate::ledger::BuildingAssignment::new_upgrade(upgrade, current_build_idx));
            return Some(u.id);
        }
        i += 1;
    }
    None
}

} // verus!
