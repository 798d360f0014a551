//! Resource-allocation ledger: per-worker and per-producer assignment records
//! keyed by entity id.
//!
//! Records are held in an association list with pairwise-distinct keys, so
//! every id present maps to exactly one record.  Entries are created
//! reactively (idle detection, build-order advancement) and removed
//! reactively (entity death, completion, reassignment).

use vstd::prelude::*;
use crate::units::{UnitKind, UpgradeKind};

verus! {

/// What a worker is currently committed to.
#[derive(Clone, Copy, Debug, PartialEq, Eq, Structural)]
pub enum WorkerAssignmentType {
    Gathering,
    Building,
    Scouting,
}

/// One worker's assignment record.
#[derive(Clone, Copy, Debug)]
pub struct WorkerAssignment {
    pub assignment_type: WorkerAssignmentType,
    /// The resource node gathered from, for a gathering record.
    pub target_unit: Option<usize>,
    /// Build-tile or pixel target, for building and scouting records.
    pub target_position: Option<(i32, i32)>,
    /// The build-order item a building record serves.
    pub build_order_index: Option<usize>,
}

impl WorkerAssignment {
    pub fn gathering(target_unit: usize) -> (r: WorkerAssignment)
        ensures
            r.assignment_type == WorkerAssignmentType::Gathering,
            r.target_unit == Some(target_unit),
            r.target_position is None,
            r.build_order_index is None,
    {
        WorkerAssignment {
            assignment_type: WorkerAssignmentType::Gathering,
            target_unit: Some(target_unit),
            target_position: None,
            build_order_index: None,
        }
    }

    pub fn building(
        target_unit: Option<usize>,
        target_position: (i32, i32),
        build_order_index: usize,
    ) -> (r: WorkerAssignment)
        ensures
            r.assignment_type == WorkerAssignmentType::Building,
            r.target_unit == target_unit,
            r.target_position == Some(target_position),
            r.build_order_index == Some(build_order_index),
    {
        WorkerAssignment {
            assignment_type: WorkerAssignmentType::Building,
            target_unit,
            target_position: Some(target_position),
            build_order_index: Some(build_order_index),
        }
    }

    pub fn scouting(target_position: (i32, i32)) -> (r: WorkerAssignment)
        ensures
            r.assignment_type == WorkerAssignmentType::Scouting,
            r.target_unit is None,
            r.target_position == Some(target_position),
            r.build_order_index is None,
    {
        WorkerAssignment {
            assignment_type: WorkerAssignmentType::Scouting,
            target_unit: None,
            target_position: Some(target_position),
            build_order_index: None,
        }
    }
}

/// What a production structure is committed to.
#[derive(Clone, Copy, Debug, PartialEq, Eq, Structural)]
pub enum BuildingAssignmentType {
    TrainUnit(UnitKind),
    ResearchUpgrade(UpgradeKind),
}

/// One producer's assignment record.
#[derive(Clone, Copy, Debug, PartialEq, Eq, Structural)]
pub struct BuildingAssignment {
    pub assignment_type: BuildingAssignmentType,
    pub build_order_index: usize,
}

impl BuildingAssignment {
    pub fn new(unit_to_train: UnitKind, build_order_index: usize) -> (r: BuildingAssignment)
        ensures
            r.assignment_type == BuildingAssignmentType::TrainUnit(unit_to_train),
            r.build_order_index == build_order_index,
    {
        BuildingAssignment {
            assignment_type: BuildingAssignmentType::TrainUnit(unit_to_train),
            build_order_index,
        }
    }

    pub fn new_upgrade(
        upgrade_type: UpgradeKind,
        build_order_index: usize,
    ) -> (r: BuildingAssignment)
        ensures
            r.assignment_type == BuildingAssignmentType::ResearchUpgrade(upgrade_type),
            r.build_order_index == build_order_index,
    {
        BuildingAssignment {
            assignment_type: BuildingAssignmentType::ResearchUpgrade(upgrade_type),
            build_order_index,
        }
    }
}

/// Map from entity id to a record, as an association list with distinct keys.
pub struct IdMap<V> {
    pub entries: Vec<(usize, V)>,
}

/// Every id present in a well-formed ledger maps to exactly one record: two
/// entries sharing a key are the same entry.
pub proof fn lemma_ledger_key_unique<V: Copy>(m: &IdMap<V>, i: int, j: int)
    requires
        m.wf(),
        0 <= i < m.entries@.len(),
        0 <= j < m.entries@.len(),
        m.entries@[i].0 == m.entries@[j].0,
    ensures
        i == j,
{
}

impl<V: Copy> IdMap<V> {
    /// Keys are pairwise distinct: every id maps to exactly one record.
    pub open spec fn wf(&self) -> bool {
        forall|i: int, j: int| 0 <= i < j < self.entries@.len()
            ==> (#[trigger] self.entries@[i]).0 != (#[trigger] self.entries@[j]).0
    }

    /// Whether some record is keyed by `k`.
    pub open spec fn spec_contains_key(&self, k: usize) -> bool {
        exists|i: int| 0 <= i < self.entries@.len() && (#[trigger] self.entries@[i]).0 == k
    }

    /// Whether the exact pair `(k, v)` is present.
    pub open spec fn has_pair(&self, k: usize, v: V) -> bool {
        exists|i: int| 0 <= i < self.entries@.len()
            && #[trigger] self.entries@[i] == (k, v)
    }

    pub fn new() -> (r: IdMap<V>)
        ensures
            r.wf(),
            r.entries@.len() == 0,
            forall|k: usize| !r.spec_contains_key(k),
    {
        IdMap { entries: Vec::new() }
    }

    pub fn len(&self) -> (r: usize)
        ensures
            r == self.entries@.len(),
    {
        self.entries.len()
    }

    /// Looks a key up; the returned record is the one paired with `k`.
    pub fn get(&self, k: usize) -> (r: Option<V>)
        requires
            self.wf(),
        ensures
            r matches Some(v) ==> self.has_pair(k, v),
            r is None <==> !self.spec_contains_key(k),
    {
        let n = self.entries.len();
        let mut i: usize = 0;
        while i < n
            invariant
                n == self.entries@.len(),
                i <= n,
                forall|j: int| 0 <= j < i ==> (#[trigger] self.entries@[j]).0 != k,
            decreases n - i,
        {
            if self.entries[i].0 == k {
                return Some(self.entries[i].1);
            }
            i += 1;
        }
        None
    }

    pub fn contains_key(&self, k: usize) -> (r: bool)
        requires
            self.wf(),
        ensures
            r == self.spec_contains_key(k),
    {
        let n = self.entries.len();
        let mut i: usize = 0;
        while i < n
            invariant
                n == self.entries@.len(),
                i <= n,
                forall|j: int| 0 <= j < i ==> (#[trigger] self.entries@[j]).0 != k,
            decreases n - i,
        {
            if self.entries[i].0 == k {
                return true;
            }
            i += 1;
        }
        false
    }

    /// Inserts or replaces the record for `k`; records of other keys stay.
    pub fn insert(&mut self, k: usize, v: V)
        requires
            old(self).wf(),
        ensures
            final(self).wf(),
            final(self).has_pair(k, v),
            final(self).spec_contains_key(k),
            forall|j: int| 0 <= j < final(self).entries@.len()
                && (#[trigger] final(self).entries@[j]).0 == k
                ==> final(self).entries@[j].1 == v,
            forall|k2: usize, v2: V| k2 != k ==> (final(self).has_pair(k2, v2)
                <==> old(self).has_pair(k2, v2)),
            forall|k2: usize| k2 != k ==> (final(self).spec_contains_key(k2)
                <==> old(self).spec_contains_key(k2)),
            final(self).entries@.len() <= old(self).entries@.len() + 1,
            !old(self).spec_contains_key(k) ==> final(self).entries@
                == old(self).entries@.push((k, v)),
            old(self).spec_contains_key(k) ==> exists|i: int|
                0 <= i < old(self).entries@.len()
                && (#[trigger] old(self).entries@[i]).0 == k
                && final(self).entries@ == (old(self).entries@.subrange(0, i)
                    + old(self).entries@.subrange(
                        i + 1, old(self).entries@.len() as int)).push((k, v)),
    {
        self.remove(k);
        let ghost mid = *self;
        self.entries.push((k, v));
        proof {
            let n = self.entries@.len();
            assert(self.entries@[n - 1] == (k, v));
            assert forall|k2: usize, v2: V| k2 != k
                && #[trigger] self.has_pair(k2, v2) implies mid.has_pair(k2, v2) by {
                let i = choose|i: int| 0 <= i < self.entries@.len()
                    && self.entries@[i] == (k2, v2);
                assert(i < n - 1);
                assert(mid.entries@[i] == (k2, v2));
            }
            assert forall|k2: usize, v2: V| k2 != k
                && #[trigger] mid.has_pair(k2, v2) implies self.has_pair(k2, v2) by {
                let i = choose|i: int| 0 <= i < mid.entries@.len()
                    && mid.entries@[i] == (k2, v2);
                assert(self.entries@[i] == (k2, v2));
            }
            assert forall|k2: usize| k2 != k
                && #[trigger] self.spec_contains_key(k2)
                implies mid.spec_contains_key(k2) by {
                let i = choose|i: int| 0 <= i < self.entries@.len()
                    && (self.entries@[i]).0 == k2;
                assert(i < n - 1);
                assert((mid.entries@[i]).0 == k2);
            }
            assert forall|k2: usize| k2 != k
                && #[trigger] mid.spec_contains_key(k2)
                implies self.spec_contains_key(k2) by {
                let i = choose|i: int| 0 <= i < mid.entries@.len()
                    && (mid.entries@[i]).0 == k2;
                assert((self.entries@[i]).0 == k2);
            }
        }
    }

    /// Removes the record for `k` if present; records of other keys stay.
    pub fn remove(&mut self, k: usize)
        requires
            old(self).wf(),
        ensures
            final(self).wf(),
            !final(self).spec_contains_key(k),
            forall|k2: usize, v2: V| k2 != k ==> (final(self).has_pair(k2, v2)
                <==> old(self).has_pair(k2, v2)),
            forall|k2: usize| k2 != k ==> (final(self).spec_contains_key(k2)
                <==> old(self).spec_contains_key(k2)),
            final(self).entries@.len() <= old(self).entries@.len(),
            !old(self).spec_contains_key(k) ==> final(self).entries@
                == old(self).entries@,
            old(self).spec_contains_key(k) ==> exists|i: int|
                0 <= i < old(self).entries@.len()
                && (#[trigger] old(self).entries@[i]).0 == k
                && final(self).entries@ == old(self).entries@.subrange(0, i)
                    + old(self).entries@.subrange(
                        i + 1, old(self).entries@.len() as int),
    {
        let n = self.entries.len();
        let mut i: usize = 0;
        while i < n
            invariant
                n == self.entries@.len(),
                i <= n,
                self.wf(),
                self == old(self),
                forall|j: int| 0 <= j < i ==> (#[trigger] self.entries@[j]).0 != k,
            decreases n - i,
        {
            if self.entries[i].0 == k {
                let ghost pre = self.entries@;
                self.entries.remove(i);
                proof {
                    assert(self.entries@ =~= pre.subrange(0, i as int)
                        + pre.subrange(i as int + 1, pre.len() as int));
                    assert forall|a: int, b: int| 0 <= a < b < self.entries@.len()
                        implies (#[trigger] self.entries@[a]).0
                            != (#[trigger] self.entries@[b]).0 by {
                        let a0 = if a < i { a } else { a + 1 };
                        let b0 = if b < i { b } else { b + 1 };
                        assert(self.entries@[a] == pre[a0]);
                        assert(self.entries@[b] == pre[b0]);
                    }
                    assert forall|j: int| 0 <= j < self.entries@.len()
                        implies (#[trigger] self.entries@[j]).0 != k by {
                        let j0 = if j < i { j } else { j + 1 };
                        assert(self.entries@[j] == pre[j0]);
                    }
                    assert forall|k2: usize, v2: V| k2 != k
                        && old(self).has_pair(k2, v2)
                        implies #[trigger] self.has_pair(k2, v2) by {
                        let j0 = choose|j0: int| 0 <= j0 < pre.len() && pre[j0] == (k2, v2);
                        let j = if j0 < i { j0 } else { j0 - 1 };
                        assert(self.entries@[j] == pre[j0]);
                    }
                    assert forall|k2: usize, v2: V| k2 != k
                        && #[trigger] self.has_pair(k2, v2)
                        implies old(self).has_pair(k2, v2) by {
                        let j = choose|j: int| 0 <= j < self.entries@.len()
                            && self.entries@[j] == (k2, v2);
                        let j0 = if j < i { j } else { j + 1 };
                        assert(pre[j0] == (k2, v2));
                    }
                    assert forall|k2: usize| k2 != k
                        && old(self).spec_contains_key(k2)
                        implies #[trigger] self.spec_contains_key(k2) by {
                        let j0 = choose|j0: int| 0 <= j0 < pre.len() && (pre[j0]).0 == k2;
                        let j = if j0 < i { j0 } else { j0 - 1 };
                        assert(self.entries@[j] == pre[j0]);
                    }
                    assert forall|k2: usize| k2 != k
                        && #[trigger] self.spec_contains_key(k2)
                        implies old(self).spec_contains_key(k2) by {
                        let j = choose|j: int| 0 <= j < self.entries@.len()
                            && (self.entries@[j]).0 == k2;
                        let j0 = if j < i { j } else { j + 1 };
                        assert((pre[j0]).0 == k2);
                    }
                }
                return;
            }
            i += 1;
        }
    }
}

} // verus!
