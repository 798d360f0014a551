//! Military squads: named, role-tagged groups of combat units sharing one
//! coordinated objective.
//!
//! A squad gathers until enough members stand near its current waypoint, then
//! attacks, following a waypoint path toward its role's target.  Membership
//! is added on unit completion and removed on death; a unit belongs to at
//! most one squad.

use vstd::prelude::*;
use crate::ledger::IdMap;

verus! {

/// What a squad is for.
#[derive(Clone, Copy, Debug, PartialEq, Eq, Structural)]
pub enum SquadRole {
    AttackAsMutas,
    Defend,
    AttackWorkers,
}

/// Where a squad stands in its gather-then-attack cycle.
#[derive(Clone, Copy, Debug, PartialEq, Eq, Structural)]
pub enum SquadStatus {
    Gathering,
    Attacking,
}

/// One squad's state.
pub struct MilitarySquad {
    pub name: String,
    pub role: SquadRole,
    pub status: SquadStatus,
    pub assigned_unit_ids: Vec<usize>,
    pub target_position: Option<(i32, i32)>,
    pub target_path: Option<Vec<(i32, i32)>>,
    pub target_path_index: Option<usize>,
    pub leader_unit_id: Option<usize>,
    /// Member count that must stand near the waypoint before the squad
    /// advances or attacks (a tunable readiness threshold).
    pub required_units_near_leader: usize,
    /// Per-unit waypoint paths with each unit's progress index.
    pub unit_path_assignments: IdMap<usize>,
}

impl MilitarySquad {
    /// Members are listed once each; a recorded path index stays within a
    /// recorded path.
    pub open spec fn wf(&self) -> bool {
        (forall|i: int, j: int| 0 <= i < j < self.assigned_unit_ids@.len()
            ==> #[trigger] self.assigned_unit_ids@[i] != #[trigger] self.assigned_unit_ids@[j])
        && self.unit_path_assignments.wf()
        && (self.target_path_index matches Some(ix)
            ==> self.target_path matches Some(p) && ix <= p@.len())
    }

    /// Whether `id` is a member.
    pub open spec fn spec_has_member(&self, id: usize) -> bool {
        exists|i: int| 0 <= i < self.assigned_unit_ids@.len()
            && #[trigger] self.assigned_unit_ids@[i] == id
    }

    /// Adds a member unless it is already listed.
    pub fn add_member(&mut self, id: usize)
        requires
            old(self).wf(),
        ensures
            final(self).wf(),
            final(self).spec_has_member(id),
            forall|id2: usize| id2 != id
                ==> (final(self).spec_has_member(id2) == old(self).spec_has_member(id2)),
            final(self).role == old(self).role,
            final(self).status == old(self).status,
            final(self).target_position == old(self).target_position,
            final(self).target_path == old(self).target_path,
            final(self).target_path_index == old(self).target_path_index,
    {
        let n = self.assigned_unit_ids.len();
        let mut i: usize = 0;
        while i < n
            invariant
                n == self.assigned_unit_ids@.len(),
                i <= n,
                self == old(self),
                old(self).wf(),
                forall|j: int| 0 <= j < i
                    ==> #[trigger] self.assigned_unit_ids@[j] != id,
            decreases n - i,
        {
            if self.assigned_unit_ids[i] == id {
                return;
            }
            i += 1;
        }
        self.assigned_unit_ids.push(id);
        proof {
            assert(self.assigned_unit_ids@[n as int] == id);
            assert forall|id2: usize| id2 != id
                && #[trigger] self.spec_has_member(id2)
                implies old(self).spec_has_member(id2) by {
                let j = choose|j: int| 0 <= j < self.assigned_unit_ids@.len()
                    && self.assigned_unit_ids@[j] == id2;
                assert(old(self).assigned_unit_ids@[j] == id2);
            }
            assert forall|id2: usize| id2 != id
                && old(self).spec_has_member(id2)
                implies #[trigger] self.spec_has_member(id2) by {
                let j = choose|j: int| 0 <= j < old(self).assigned_unit_ids@.len()
                    && old(self).assigned_unit_ids@[j] == id2;
                assert(self.assigned_unit_ids@[j] == id2);
            }
        }
    }

    /// Removes a member if present.
    pub fn remove_member(&mut self, id: usize)
        requires
            old(self).wf(),
        ensures
            final(self).wf(),
            !final(self).spec_has_member(id),
            forall|id2: usize| id2 != id
                ==> (final(self).spec_has_member(id2) == old(self).spec_has_member(id2)),
            final(self).name == old(self).name,
            final(self).role == old(self).role,
            final(self).status == old(self).status,
            final(self).target_position == old(self).target_position,
            final(self).target_path == old(self).target_path,
            final(self).target_path_index == old(self).target_path_index,
            final(self).leader_unit_id == old(self).leader_unit_id,
            final(self).required_units_near_leader == old(self).required_units_near_leader,
    {
        let n = self.assigned_unit_ids.len();
        let mut i: usize = 0;
        while i < n
            invariant
                n == self.assigned_unit_ids@.len(),
                i <= n,
                self == old(self),
                old(self).wf(),
                forall|j: int| 0 <= j < i
                    ==> #[trigger] self.assigned_unit_ids@[j] != id,
            decreases n - i,
        {
            if self.assigned_unit_ids[i] == id {
                let ghost pre = self.assigned_unit_ids@;
                self.assigned_unit_ids.remove(i);
                proof {
                    assert(self.assigned_unit_ids@
                        =~= pre.subrange(0, i as int) + pre.subrange(
                            i as int + 1, pre.len() as int));
                    assert forall|a: int, b: int|
                        0 <= a < b < self.assigned_unit_ids@.len()
                        implies self.assigned_unit_ids@[a] != self.assigned_unit_ids@[b] by {
                        let a0 = if a < i { a } else { a + 1 };
                        let b0 = if b < i { b } else { b + 1 };
                        assert(self.assigned_unit_ids@[a] == pre[a0]);
                        assert(self.assigned_unit_ids@[b] == pre[b0]);
                    }
                    assert forall|j: int| 0 <= j < self.assigned_unit_ids@.len()
                        implies self.assigned_unit_ids@[j] != id by {
                        let j0 = if j < i { j } else { j + 1 };
                        assert(self.assigned_unit_ids@[j] == pre[j0]);
                    }
                    assert forall|id2: usize| id2 != id
                        && old(self).spec_has_member(id2)
                        implies #[trigger] self.spec_has_member(id2) by {
                        let j0 = choose|j0: int| 0 <= j0 < pre.len() && pre[j0] == id2;
                        let j = if j0 < i { j0 } else { j0 - 1 };
                        assert(self.assigned_unit_ids@[j] == pre[j0]);
                    }
                    assert forall|id2: usize| id2 != id
                        && #[trigger] self.spec_has_member(id2)
                        implies old(self).spec_has_member(id2) by {
                        let j = choose|j: int| 0 <= j < self.assigned_unit_ids@.len()
                            && self.assigned_unit_ids@[j] == id2;
                        let j0 = if j < i { j } else { j + 1 };
                        assert(pre[j0] == id2);
                    }
                }
                return;
            }
            i += 1;
        }
    }
}

} // verus!
