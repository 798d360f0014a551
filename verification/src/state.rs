//! The shared game state: the one structure aggregating the ledgers, build
//! order, squads and operator controls, mutated exclusively once per tick.
//!
//! The tick handler reconciles stale records against ground truth, advances
//! the build order, allocates idle workers and producers, and updates squad
//! behavior; the host adapter owns locking and command execution.

use vstd::prelude::*;
use crate::ledger::{IdMap, WorkerAssignment, BuildingAssignment, BuildingAssignmentType,
    WorkerAssignmentType};
use crate::build_order::{BuildOrderItem, responsibilities_in_range};
use crate::squads::{MilitarySquad, SquadRole};
use crate::units::{OwnUnit, UnitKind, UpgradeKind, PlayerInfo};

verus! {

/// Operator-facing debug overlays.
#[derive(Clone, Copy, Debug, PartialEq, Eq, Structural)]
pub enum DebugFlag {
    ShowWorkerAssignments,
    ShowMilitaryAssignments,
    ShowPathToEnemyBase,
    ShowRegions,
}

/// The aggregate state of one match.
pub struct GameState {
    pub worker_assignments: IdMap<WorkerAssignment>,
    pub building_assignments: IdMap<BuildingAssignment>,
    /// Simulation speed requested by the operator; negative means default.
    pub game_speed: i32,
    pub build_order: Vec<BuildOrderItem>,
    pub build_order_index: usize,
    pub larva_responsibilities: IdMap<usize>,
    pub military_squads: Vec<MilitarySquad>,
    pub path_to_enemy_base: Option<Vec<(i32, i32)>>,
    pub base_locations: Vec<(i32, i32)>,
    pub debug_flags: Vec<DebugFlag>,
}

impl GameState {
    /// The per-match invariant: unique ledger keys, the cursor within the
    /// queue, every larva commitment pointing into the queue, well-formed
    /// squads, and each debug flag recorded once.
    pub open spec fn wf(&self) -> bool {
        &&& self.worker_assignments.wf()
        &&& self.building_assignments.wf()
        &&& self.larva_responsibilities.wf()
        &&& responsibilities_in_range(
            &self.larva_responsibilities, self.build_order@.len() as usize)
        &&& self.build_order_index <= self.build_order@.len()
        &&& self.build_order@.len() <= 100_000
        &&& (forall|i: int| 0 <= i < self.military_squads@.len()
            ==> (#[trigger] self.military_squads@[i]).wf())
        &&& (forall|i: int, j: int| 0 <= i < j < self.debug_flags@.len()
            ==> self.debug_flags@[i] != self.debug_flags@[j])
    }

    /// Whether the overlay is switched on.
    pub fn has_debug_flag(&self, f: DebugFlag) -> (r: bool)
        ensures
            r == exists|i: int| 0 <= i < self.debug_flags@.len()
                && self.debug_flags@[i] == f,
    {
        let n = self.debug_flags.len();
        let mut i: usize = 0;
        while i < n
            invariant
                n == self.debug_flags@.len(),
                i <= n,
                forall|j: int| 0 <= j < i ==> self.debug_flags@[j] != f,
            decreases n - i,
        {
            if self.debug_flags[i] == f {
                proof {
                    assert(self.debug_flags@[i as int] == f);
                }
                return true;
            }
            i += 1;
        }
        false
    }

    /// Replaces the whole overlay set, dropping duplicates: afterwards a
    /// flag is on exactly when the new set lists it.
    pub fn set_debug_flags(&mut self, flags: Vec<DebugFlag>)
        requires
            old(self).wf(),
        ensures
            final(self).wf(),
            forall|f: DebugFlag| flag_in(final(self).debug_flags@, f)
                == flag_in(flags@, f),
            final(self).build_order_index == old(self).build_order_index,
    {
        let mut deduped: Vec<DebugFlag> = Vec::new();
        let mut i: usize = 0;
        while i < flags.len()
            invariant
                i <= flags@.len(),
                forall|a: int, b: int| 0 <= a < b < deduped@.len()
                    ==> deduped@[a] != deduped@[b],
                forall|f: DebugFlag| flag_in(deduped@, f)
                    == flag_in(flags@.subrange(0, i as int), f),
            decreases flags@.len() - i,
        {
            let f = flags[i];
            let mut present = false;
            let mut j: usize = 0;
            while j < deduped.len()
                invariant
                    j <= deduped@.len(),
                    present ==> exists|a: int| 0 <= a < deduped@.len()
                        && deduped@[a] == f,
                    !present ==> forall|a: int| 0 <= a < j ==> deduped@[a] != f,
                decreases deduped@.len() - j,
            {
                if deduped[j] == f {
                    present = true;
                    proof {
                        assert(deduped@[j as int] == f);
                    }
                }
                j += 1;
            }
            let ghost pre = deduped@;
            let ghost prefix = flags@.subrange(0, i as int);
            if !present {
                deduped.push(f);
            }
            i += 1;
            proof {
                let cur = flags@.subrange(0, i as int);
                assert(cur.drop_last() =~= prefix);
                assert(cur.last() == flags@[i - 1]);
                if !present {
                    assert(deduped@[deduped@.len() - 1] == f);
                    assert forall|a: int, b: int| 0 <= a < b < deduped@.len()
                        implies deduped@[a] != deduped@[b] by {
                        if b < deduped@.len() - 1 {
                            assert(deduped@[a] == pre[a] && deduped@[b] == pre[b]);
                        } else {
                            assert(deduped@[a] == pre[a]);
                        }
                    }
                }
                assert forall|g: DebugFlag| flag_in(deduped@, g)
                    == #[trigger] flag_in(cur, g) by {
                    lemma_flag_in_extend(pre, prefix, deduped@, cur, f, g, present);
                }
            }
        }
        let ghost dd = deduped@;
        self.debug_flags = deduped;
        proof {
            assert(flags@.subrange(0, flags@.len() as int) =~= flags@);
        }
    }

    /// Applies an operator command: only the speed command named exactly
    /// `set_game_speed` changes the speed; everything else leaves the state
    /// untouched.
    pub fn apply_game_speed_command(&mut self, command: &String, value: i32)
        requires
            old(self).wf(),
        ensures
            final(self).wf(),
            command@ == "set_game_speed"@ ==> final(self).game_speed == value,
            command@ != "set_game_speed"@ ==> *final(self) == *old(self),
    {
        let expected: String = "set_game_speed".to_owned();
        if *command == expected {
            self.game_speed = value;
        }
    }
}

/// Whether the flag occurs in the sequence.
pub open spec fn flag_in(s: Seq<DebugFlag>, f: DebugFlag) -> bool {
    exists|i: int| 0 <= i < s.len() && s[i] == f
}

/// Extending the scanned prefix by one flag extends the deduplicated list's
/// membership by exactly that flag.
proof fn lemma_flag_in_extend(
    pre: Seq<DebugFlag>,
    prefix: Seq<DebugFlag>,
    cur_dedup: Seq<DebugFlag>,
    cur_prefix: Seq<DebugFlag>,
    f: DebugFlag,
    g: DebugFlag,
    present: bool,
)
    requires
        cur_prefix =~= prefix.push(f),
        if present { cur_dedup == pre } else { cur_dedup == pre.push(f) },
        present ==> flag_in(pre, f),
        forall|h: DebugFlag| flag_in(pre, h) == #[trigger] flag_in(prefix, h),
    ensures
        flag_in(cur_dedup, g) == flag_in(cur_prefix, g),
{
    if flag_in(cur_dedup, g) {
        let a = choose|a: int| 0 <= a < cur_dedup.len() && cur_dedup[a] == g;
        if present || a < cur_dedup.len() - 1 {
            assert(pre[a] == g);
            assert(flag_in(pre, g));
            assert(flag_in(prefix, g));
            let b = choose|b: int| 0 <= b < prefix.len() && prefix[b] == g;
            assert(cur_prefix[b] == g);
            assert(flag_in(cur_prefix, g));
        } else {
            assert(g == f);
            assert(cur_prefix[cur_prefix.len() - 1] == f);
            assert(flag_in(cur_prefix, g));
        }
    }
    if flag_in(cur_prefix, g) {
        let b = choose|b: int| 0 <= b < cur_prefix.len() && cur_prefix[b] == g;
        if b < cur_prefix.len() - 1 {
            assert(prefix[b] == g);
            assert(flag_in(prefix, g));
            assert(flag_in(pre, g));
            let a = choose|a: int| 0 <= a < pre.len() && pre[a] == g;
            assert(cur_dedup[a] == g);
            assert(flag_in(cur_dedup, g));
        } else {
            assert(g == f);
            if present {
                assert(flag_in(pre, f));
                let a = choose|a: int| 0 <= a < pre.len() && pre[a] == f;
                assert(cur_dedup[a] == g);
            } else {
                assert(cur_dedup[cur_dedup.len() - 1] == f);
            }
            assert(flag_in(cur_dedup, g));
        }
    }
}

/// The items of the standard opening, in order.
pub open spec fn spec_standard_build_order() -> Seq<BuildOrderItem> {
    seq![
        BuildOrderItem::Unit { unit_type: UnitKind::Drone, base_index: None::<usize> },
        BuildOrderItem::Unit { unit_type: UnitKind::Drone, base_index: None::<usize> },
        BuildOrderItem::Unit { unit_type: UnitKind::Overlord, base_index: None::<usize> },
        BuildOrderItem::Unit { unit_type: UnitKind::Drone, base_index: None::<usize> },
        BuildOrderItem::Unit { unit_type: UnitKind::Drone, base_index: None::<usize> },
        BuildOrderItem::Unit { unit_type: UnitKind::SpawningPool, base_index: None::<usize> },
        BuildOrderItem::Unit { unit_type: UnitKind::Drone, base_index: None::<usize> },
        BuildOrderItem::Unit { unit_type: UnitKind::Drone, base_index: None::<usize> },
        BuildOrderItem::Unit { unit_type: UnitKind::Drone, base_index: None::<usize> },
        BuildOrderItem::Unit { unit_type: UnitKind::Hatchery, base_index: Some(1usize) },
        BuildOrderItem::Unit { unit_type: UnitKind::Zergling, base_index: None::<usize> },
        BuildOrderItem::Unit { unit_type: UnitKind::Zergling, base_index: None::<usize> },
        BuildOrderItem::Unit { unit_type: UnitKind::Zergling, base_index: None::<usize> },
        BuildOrderItem::Unit { unit_type: UnitKind::Hatchery, base_index: Some(2usize) },
        BuildOrderItem::Unit { unit_type: UnitKind::Extractor, base_index: None::<usize> },
        BuildOrderItem::Unit { unit_type: UnitKind::Zergling, base_index: None::<usize> },
        BuildOrderItem::Unit { unit_type: UnitKind::Drone, base_index: None::<usize> },
        BuildOrderItem::Unit { unit_type: UnitKind::Drone, base_index: None::<usize> },
        BuildOrderItem::Unit { unit_type: UnitKind::EvolutionChamber, base_index: None::<usize> },
        BuildOrderItem::Unit { unit_type: UnitKind::Drone, base_index: None::<usize> },
        BuildOrderItem::Unit { unit_type: UnitKind::Drone, base_index: None::<usize> },
        BuildOrderItem::Upgrade(UpgradeKind::MetabolicBoost),
        BuildOrderItem::Unit { unit_type: UnitKind::Overlord, base_index: None::<usize> },
        BuildOrderItem::Unit { unit_type: UnitKind::CreepColony, base_index: None::<usize> },
        BuildOrderItem::Unit { unit_type: UnitKind::Zergling, base_index: None::<usize> },
        BuildOrderItem::Unit { unit_type: UnitKind::Zergling, base_index: None::<usize> },
        BuildOrderItem::Unit { unit_type: UnitKind::Zergling, base_index: None::<usize> },
        BuildOrderItem::Unit { unit_type: UnitKind::Zergling, base_index: None::<usize> },
        BuildOrderItem::Unit { unit_type: UnitKind::Lair, base_index: None::<usize> },
        BuildOrderItem::Unit { unit_type: UnitKind::Hatchery, base_index: Some(3usize) },
        BuildOrderItem::Unit { unit_type: UnitKind::Drone, base_index: None::<usize> },
        BuildOrderItem::Unit { unit_type: UnitKind::Drone, base_index: None::<usize> },
        BuildOrderItem::Unit { unit_type: UnitKind::Drone, base_index: None::<usize> },
        BuildOrderItem::Unit { unit_type: UnitKind::Overlord, base_index: None::<usize> },
        BuildOrderItem::Unit { unit_type: UnitKind::Zergling, base_index: None::<usize> },
        BuildOrderItem::Unit { unit_type: UnitKind::Zergling, base_index: None::<usize> },
        BuildOrderItem::Unit { unit_type: UnitKind::Zergling, base_index: None::<usize> },
        BuildOrderItem::Upgrade(UpgradeKind::MeleeAttacks),
        BuildOrderItem::Unit { unit_type: UnitKind::Drone, base_index: None::<usize> },
        BuildOrderItem::Unit { unit_type: UnitKind::Drone, base_index: None::<usize> },
        BuildOrderItem::Unit { unit_type: UnitKind::Extractor, base_index: None::<usize> },
        BuildOrderItem::Unit { unit_type: UnitKind::HydraliskDen, base_index: None::<usize> },
        BuildOrderItem::Unit { unit_type: UnitKind::Drone, base_index: None::<usize> },
        BuildOrderItem::Unit { unit_type: UnitKind::Drone, base_index: None::<usize> },
        BuildOrderItem::Unit { unit_type: UnitKind::Overlord, base_index: None::<usize> },
        BuildOrderItem::Unit { unit_type: UnitKind::Hydralisk, base_index: None::<usize> },
        BuildOrderItem::Unit { unit_type: UnitKind::Hydralisk, base_index: None::<usize> },
        BuildOrderItem::Unit { unit_type: UnitKind::Hydralisk, base_index: None::<usize> },
        BuildOrderItem::Upgrade(UpgradeKind::GroovedSpines),
        BuildOrderItem::Unit { unit_type: UnitKind::Hydralisk, base_index: None::<usize> },
        BuildOrderItem::Unit { unit_type: UnitKind::Hydralisk, base_index: None::<usize> },
        BuildOrderItem::Unit { unit_type: UnitKind::Overlord, base_index: None::<usize> },
        BuildOrderItem::Unit { unit_type: UnitKind::Hydralisk, base_index: None::<usize> },
        BuildOrderItem::Unit { unit_type: UnitKind::Hydralisk, base_index: None::<usize> },
        BuildOrderItem::Unit { unit_type: UnitKind::Hydralisk, base_index: None::<usize> },
        BuildOrderItem::Unit { unit_type: UnitKind::Drone, base_index: None::<usize> },
        BuildOrderItem::Unit { unit_type: UnitKind::Drone, base_index: None::<usize> },
        BuildOrderItem::Upgrade(UpgradeKind::MissileAttacks),
        BuildOrderItem::Unit { unit_type: UnitKind::Hydralisk, base_index: None::<usize> },
        BuildOrderItem::Unit { unit_type: UnitKind::Hydralisk, base_index: None::<usize> },
        BuildOrderItem::Unit { unit_type: UnitKind::Hydralisk, base_index: None::<usize> },
        BuildOrderItem::Unit { unit_type: UnitKind::Overlord, base_index: None::<usize> },
    ]
}

/// The standard opening build order: a fast-expanding economy into sustained
/// combat production, expansions claimed at successive base slots; exactly
/// the items of `spec_standard_build_order`.
#[verifier::rlimit(60)]
pub fn build_order() -> (r: Vec<BuildOrderItem>)
    ensures
        r@ =~= spec_standard_build_order(),
        1 <= r@.len() <= 100_000,
        r@[0] == (BuildOrderItem::Unit {
            unit_type: UnitKind::Drone, base_index: None::<usize> }),
{
    let mut bo: Vec<BuildOrderItem> = Vec::new();
    bo.push(BuildOrderItem::unit(UnitKind::Drone));
    bo.push(BuildOrderItem::unit(UnitKind::Drone));
    bo.push(BuildOrderItem::unit(UnitKind::Overlord));
    bo.push(BuildOrderItem::unit(UnitKind::Drone));
    bo.push(BuildOrderItem::unit(UnitKind::Drone));
    bo.push(BuildOrderItem::unit(UnitKind::SpawningPool));
    bo.push(BuildOrderItem::unit(UnitKind::Drone));
    bo.push(BuildOrderItem::unit(UnitKind::Drone));
    bo.push(BuildOrderItem::unit(UnitKind::Drone));
    bo.push(BuildOrderItem::unit_at_base(UnitKind::Hatchery, 1));
    bo.push(BuildOrderItem::unit(UnitKind::Zergling));
    bo.push(BuildOrderItem::unit(UnitKind::Zergling));
    bo.push(BuildOrderItem::unit(UnitKind::Zergling));
    bo.push(BuildOrderItem::unit_at_base(UnitKind::Hatchery, 2));
    bo.push(BuildOrderItem::unit(UnitKind::Extractor));
    bo.push(BuildOrderItem::unit(UnitKind::Zergling));
    bo.push(BuildOrderItem::unit(UnitKind::Drone));
    bo.push(BuildOrderItem::unit(UnitKind::Drone));
    bo.push(BuildOrderItem::unit(UnitKind::EvolutionChamber));
    bo.push(BuildOrderItem::unit(UnitKind::Drone));
    bo.push(BuildOrderItem::unit(UnitKind::Drone));
    bo.push(BuildOrderItem::Upgrade(UpgradeKind::MetabolicBoost));
    bo.push(BuildOrderItem::unit(UnitKind::Overlord));
    bo.push(BuildOrderItem::unit(UnitKind::CreepColony));
    bo.push(BuildOrderItem::unit(UnitKind::Zergling));
    bo.push(BuildOrderItem::unit(UnitKind::Zergling));
    bo.push(BuildOrderItem::unit(UnitKind::Zergling));
    bo.push(BuildOrderItem::unit(UnitKind::Zergling));
    bo.push(BuildOrderItem::unit(UnitKind::Lair));
    bo.push(BuildOrderItem::unit_at_base(UnitKind::Hatchery, 3));
    bo.push(BuildOrderItem::unit(UnitKind::Drone));
    bo.push(BuildOrderItem::unit(UnitKind::Drone));
    bo.push(BuildOrderItem::unit(UnitKind::Drone));
    bo.push(BuildOrderItem::unit(UnitKind::Overlord));
    bo.push(BuildOrderItem::unit(UnitKind::Zergling));
    bo.push(BuildOrderItem::unit(UnitKind::Zergling));
    bo.push(BuildOrderItem::unit(UnitKind::Zergling));
    bo.push(BuildOrderItem::Upgrade(UpgradeKind::MeleeAttacks));
    bo.push(BuildOrderItem::unit(UnitKind::Drone));
    bo.push(BuildOrderItem::unit(UnitKind::Drone));
    bo.push(BuildOrderItem::unit(UnitKind::Extractor));
    bo.push(BuildOrderItem::unit(UnitKind::HydraliskDen));
    bo.push(BuildOrderItem::unit(UnitKind::Drone));
    bo.push(BuildOrderItem::unit(UnitKind::Drone));
    bo.push(BuildOrderItem::unit(UnitKind::Overlord));
    bo.push(BuildOrderItem::unit(UnitKind::Hydralisk));
    bo.push(BuildOrderItem::unit(UnitKind::Hydralisk));
    bo.push(BuildOrderItem::unit(UnitKind::Hydralisk));
    bo.push(BuildOrderItem::Upgrade(UpgradeKind::GroovedSpines));
    bo.push(BuildOrderItem::unit(UnitKind::Hydralisk));
    bo.push(BuildOrderItem::unit(UnitKind::Hydralisk));
    bo.push(BuildOrderItem::unit(UnitKind::Overlord));
    bo.push(BuildOrderItem::unit(UnitKind::Hydralisk));
    bo.push(BuildOrderItem::unit(UnitKind::Hydralisk));
    bo.push(BuildOrderItem::unit(UnitKind::Hydralisk));
    bo.push(BuildOrderItem::unit(UnitKind::Drone));
    bo.push(BuildOrderItem::unit(UnitKind::Drone));
    bo.push(BuildOrderItem::Upgrade(UpgradeKind::MissileAttacks));
    bo.push(BuildOrderItem::unit(UnitKind::Hydralisk));
    bo.push(BuildOrderItem::unit(UnitKind::Hydralisk));
    bo.push(BuildOrderItem::unit(UnitKind::Hydralisk));
    bo.push(BuildOrderItem::unit(UnitKind::Overlord));
    proof {
        assert(bo@ =~= spec_standard_build_order());
    }
    bo
}

impl Default for GameState {
    /// A fresh match: the standard opening, cursor at the start, empty
    /// ledgers, the usual overlays on, default speed.
    fn default() -> (r: GameState)
        ensures
            r.wf(),
            r.build_order_index == 0,
            r.game_speed == -1,
            r.build_order@ =~= spec_standard_build_order(),
            r.debug_flags@ =~= seq![
                DebugFlag::ShowWorkerAssignments,
                DebugFlag::ShowMilitaryAssignments,
                DebugFlag::ShowPathToEnemyBase],
            r.worker_assignments.entries@.len() == 0,
            r.building_assignments.entries@.len() == 0,
            r.larva_responsibilities.entries@.len() == 0,
            r.military_squads@.len() == 0,
    {
        let mut flags: Vec<DebugFlag> = Vec::new();
        flags.push(DebugFlag::ShowWorkerAssignments);
        flags.push(DebugFlag::ShowMilitaryAssignments);
        flags.push(DebugFlag::ShowPathToEnemyBase);
        GameState {
            worker_assignments: IdMap::new(),
            building_assignments: IdMap::new(),
            game_speed: -1,
            build_order: build_order(),
            build_order_index: 0,
            larva_responsibilities: IdMap::new(),
            military_squads: Vec::new(),
            path_to_enemy_base: None,
            base_locations: Vec::new(),
            debug_flags: flags,
        }
    }
}

/// What the build-order pass asks the engine to do this tick.
#[derive(Clone, Copy, Debug, PartialEq, Eq, Structural)]
pub enum BuildOrderAction {
    /// Nothing to issue: waiting on funds, producers, or observation.
    Wait,
    /// Train the unit kind from the larva.
    TrainFromLarva(usize, UnitKind),
}

/// One tick of the build-order state machine: reconcile larva commitments
/// and observed construction starts, queue a fallback item past the end,
/// then commit a producer to the current item.  The cursor never moves
/// backward and never exceeds the queue length.
pub fn build_order_onframe(
    state: &mut GameState,
    my_units: &Vec<OwnUnit>,
    player: &PlayerInfo,
) -> (r: BuildOrderAction)
    requires
        old(state).wf(),
        -0x1000_0000 < player.supply_total < 0x1000_0000,
        -0x1000_0000 < player.supply_used < 0x1000_0000,
    ensures
        final(state).wf(),
        old(state).build_order_index <= final(state).build_order_index,
        final(state).build_order_index <= final(state).build_order@.len(),
        // a train action records the larva's commitment at the cursor, which
        // points at the trained kind
        r matches BuildOrderAction::TrainFromLarva(id, k) ==> {
            &&& final(state).larva_responsibilities.has_pair(
                id, final(state).build_order_index)
            &&& final(state).build_order_index < final(state).build_order@.len()
            &&& (final(state).build_order@[final(state).build_order_index as int]
                matches BuildOrderItem::Unit { unit_type, .. }
                && unit_type == k && !crate::units::spec_is_building(k))
        },
        // waiting on a funded, larva-trained item means no free larva exists
        ({
            &&& r == BuildOrderAction::Wait
            &&& final(state).build_order@.len() == old(state).build_order@.len()
            &&& final(state).military_squads@.len() == old(state).military_squads@.len()
            &&& final(state).build_order_index < final(state).build_order@.len()
            &&& (final(state).build_order@[final(state).build_order_index as int]
                matches BuildOrderItem::Unit { unit_type, .. }
                && !crate::units::spec_is_building(unit_type)
                && player.minerals >= crate::units::spec_mineral_price(unit_type))
        }) ==> forall|j: int| 0 <= j < my_units@.len()
            && (#[trigger] my_units@[j]).kind == UnitKind::Larva
            ==> final(state).larva_responsibilities.spec_contains_key(my_units@[j].id),
        // waiting on a funded, drone-built structure with a gatherer on hand
        // means a build commitment stands
        ({
            &&& r == BuildOrderAction::Wait
            &&& final(state).build_order@.len() == old(state).build_order@.len()
            &&& final(state).military_squads@.len() == old(state).military_squads@.len()
            &&& final(state).build_order_index < final(state).build_order@.len()
            &&& (final(state).build_order@[final(state).build_order_index as int]
                matches BuildOrderItem::Unit { unit_type, .. }
                && crate::units::spec_is_building(unit_type)
                && crate::units::spec_what_builds(unit_type) == UnitKind::Drone
                && player.minerals >= crate::units::spec_mineral_price(unit_type))
            &&& exists|j: int| 0 <= j < final(state).worker_assignments.entries@.len()
                && crate::build_order::gathers_somewhere(
                    (#[trigger] final(state).worker_assignments.entries@[j]).1)
        }) ==> ({
            let k = final(state).build_order@[
                final(state).build_order_index as int]->Unit_unit_type;
            crate::build_order::spec_is_building_current_building(
                final(state).build_order@, &final(state).worker_assignments, k)
            || crate::build_order::has_worker_assignment_for_index(
                &final(state).worker_assignments, final(state).build_order_index)
        }),
{
    // ground truth: the larvae alive this tick
    let mut live_larvae: Vec<usize> = Vec::new();
    let mut i: usize = 0;
    while i < my_units.len()
        invariant
            i <= my_units@.len(),
        decreases my_units@.len() - i,
    {
        if matches!(my_units[i].kind, UnitKind::Larva) {
            live_larvae.push(my_units[i].id);
        }
        i += 1;
    }

    let bo_len = state.build_order.len();
    crate::build_order::advance_build_order_for_morphed_larvae(
        &live_larvae, &mut state.larva_responsibilities, bo_len,
        &mut state.build_order_index);
    crate::build_order::advance_build_order_if_building_building(
        &state.build_order, &mut state.build_order_index, my_units,
        &state.worker_assignments);
    crate::build_order::check_and_advance_upgrade_if_started(
        &state.build_order, &mut state.build_order_index,
        &state.building_assignments, my_units);

    if state.build_order_index >= state.build_order.len() {
        if state.build_order.len() < 100_000 {
            crate::build_order::figure_out_what_to_build(
                player, my_units, &mut state.build_order);
            proof {
                // a longer queue keeps every commitment in range
                assert(responsibilities_in_range(&state.larva_responsibilities,
                    state.build_order@.len() as usize));
            }
        }
        return BuildOrderAction::Wait;
    }

    let item_kind: UnitKind = match &state.build_order[state.build_order_index] {
        BuildOrderItem::Unit { unit_type, .. } => *unit_type,
        BuildOrderItem::Upgrade(u) => {
            // commit a producer to the research once
            let upgrade = *u;
            if !has_research_assignment(&state.building_assignments,
                state.build_order_index) {
                crate::build_order::assign_building_to_research_upgrade(
                    my_units, &mut state.building_assignments, upgrade,
                    state.build_order_index);
            }
            return BuildOrderAction::Wait;
        },
        BuildOrderItem::Squad { name, role, status } => {
            // a squad goal completes atomically: create it, then advance
            let squad = MilitarySquad {
                name: name.clone(),
                role: *role,
                status: *status,
                assigned_unit_ids: Vec::new(),
                target_position: None,
                target_path: None,
                target_path_index: None,
                leader_unit_id: None,
                required_units_near_leader: 4,
                unit_path_assignments: IdMap::new(),
            };
            state.military_squads.push(squad);
            state.build_order_index += 1;
            proof {
                assert forall|j: int| 0 <= j < state.military_squads@.len()
                    implies (#[trigger] state.military_squads@[j]).wf() by {
                    if j == state.military_squads@.len() - 1 {
                        assert(state.military_squads@[j].target_path_index
                            is None);
                    }
                }
            }
            return BuildOrderAction::Wait;
        },
    };

    if crate::units::is_building(item_kind) {
        if crate::build_order::is_building_current_building(
            &state.build_order, &state.worker_assignments, item_kind) {
            return BuildOrderAction::Wait;
        }
        let builder = crate::units::what_builds(item_kind);
        if crate::units::is_building(builder) {
            // a structure morphs into this one
            if !has_building_assignment(&state.building_assignments,
                state.build_order_index) {
                crate::build_order::assign_building_to_morph_into_building(
                    my_units, None, &mut state.building_assignments, item_kind,
                    builder, state.build_order_index);
            }
            return BuildOrderAction::Wait;
        }
        // a drone builds it: commit one, the location is found at enforcement
        if player.minerals < crate::units::mineral_price(item_kind) {
            return BuildOrderAction::Wait;
        }
        match crate::build_order::choose_drone_to_build(&state.worker_assignments) {
            Some(drone_id) => {
                state.worker_assignments.insert(drone_id, WorkerAssignment {
                    assignment_type: WorkerAssignmentType::Building,
                    target_unit: None,
                    target_position: None,
                    build_order_index: Some(state.build_order_index),
                });
            },
            None => {},
        }
        return BuildOrderAction::Wait;
    }

    // a larva trains it
    if player.minerals < crate::units::mineral_price(item_kind) {
        return BuildOrderAction::Wait;
    }
    match crate::build_order::select_larva(my_units, &state.larva_responsibilities) {
        Some(larva_id) => {
            proof {
                assert(state.build_order_index < state.build_order@.len());
            }
            crate::build_order::record_larva_commitment(
                &mut state.larva_responsibilities, larva_id,
                state.build_order_index, state.build_order.len());
            BuildOrderAction::TrainFromLarva(larva_id, item_kind)
        },
        None => {
            proof {
                assert forall|j: int| 0 <= j < my_units@.len()
                    && (#[trigger] my_units@[j]).kind == UnitKind::Larva
                    implies state.larva_responsibilities.spec_contains_key(
                        my_units@[j].id) by {
                    assert(!crate::build_order::free_larva_at(
                        my_units@, &state.larva_responsibilities, j));
                }
            }
            BuildOrderAction::Wait
        },
    }
}

/// Whether some producer record serves build-order index `ix`.
fn has_building_assignment(
    m: &IdMap<BuildingAssignment>, ix: usize,
) -> (r: bool)
    ensures
        r == crate::build_order::has_building_assignment_for_index(m, ix),
{
    let n = m.entries.len();
    let mut i: usize = 0;
    while i < n
        invariant
            n == m.entries@.len(),
            i <= n,
            forall|j: int| 0 <= j < i
                ==> (#[trigger] m.entries@[j]).1.build_order_index != ix,
        decreases n - i,
    {
        if m.entries[i].1.build_order_index == ix {
            proof {
                assert((m.entries@[i as int]).1.build_order_index == ix);
            }
            return true;
        }
        i += 1;
    }
    false
}

/// Whether some producer record serves the research at index `ix`.
fn has_research_assignment(m: &IdMap<BuildingAssignment>, ix: usize) -> (r: bool)
    ensures
        r == crate::build_order::has_building_assignment_for_index(m, ix),
{
    has_building_assignment(m, ix)
}

/// Drops a larva commitment whose train command the engine rejected, so the
/// larva is free to be committed again next tick.
pub fn release_larva_commitment(state: &mut GameState, larva_id: usize)
    requires
        old(state).wf(),
    ensures
        final(state).wf(),
        !final(state).larva_responsibilities.spec_contains_key(larva_id),
        final(state).build_order_index == old(state).build_order_index,
{
    state.larva_responsibilities.remove(larva_id);
    proof {
        assert forall|j: int| 0 <= j < state.larva_responsibilities.entries@.len()
            implies (#[trigger] state.larva_responsibilities.entries@[j]).1
                < state.build_order@.len() by {
            let (k, v) = state.larva_responsibilities.entries@[j];
            assert(state.larva_responsibilities.has_pair(k, v));
            assert(old(state).larva_responsibilities.has_pair(k, v));
            let jj = choose|jj: int| 0 <= jj
                < old(state).larva_responsibilities.entries@.len()
                && old(state).larva_responsibilities.entries@[jj] == (k, v);
        }
    }
}

/// The morph or research command the producer enforcement pass wants issued.
#[derive(Clone, Copy, Debug, PartialEq, Eq, Structural)]
pub enum ProducerCommand {
    Wait,
    Morph(usize, UnitKind),
    Research(usize, UpgradeKind),
}

/// Re-issues the morph command for the current structure item when funds
/// allow and the committed producer is observed completed and not already
/// morphing.
pub fn enforce_structure_assignment(
    state: &GameState,
    my_units: &Vec<OwnUnit>,
    player: &PlayerInfo,
) -> (r: ProducerCommand)
    requires
        state.wf(),
    ensures
        r matches ProducerCommand::Morph(id, k) ==> {
            &&& state.building_assignments.spec_contains_key(id)
            &&& player.minerals >= crate::units::spec_mineral_price(k)
            &&& player.gas >= crate::units::spec_gas_price(k)
        },
        r is Research ==> false,
        // the morph is owed when the first record serving the cursor commits
        // a producer observed completed and not already morphing, and funds
        // cover the price
        ({
            &&& state.build_order_index < state.build_order@.len()
            &&& exists|i: int| {
                &&& 0 <= i < state.building_assignments.entries@.len()
                &&& (#[trigger] state.building_assignments.entries@[i]).1
                    .build_order_index == state.build_order_index
                &&& (forall|j: int| 0 <= j < i
                    ==> (#[trigger] state.building_assignments.entries@[j]).1
                        .build_order_index != state.build_order_index)
                &&& (state.building_assignments.entries@[i].1.assignment_type
                    matches BuildingAssignmentType::TrainUnit(k)
                    && player.minerals >= crate::units::spec_mineral_price(k)
                    && player.gas >= crate::units::spec_gas_price(k)
                    && (crate::military::find_unit(my_units@,
                        state.building_assignments.entries@[i].0) matches Some(b)
                        && b.is_completed && !b.is_morphing))
            }
        }) ==> r is Morph,
{
    if state.build_order_index >= state.build_order.len() {
        return ProducerCommand::Wait;
    }
    let n = state.building_assignments.entries.len();
    let mut i: usize = 0;
    while i < n
        invariant
            n == state.building_assignments.entries@.len(),
            i <= n,
            state.wf(),
            forall|j: int| 0 <= j < i
                ==> (#[trigger] state.building_assignments.entries@[j]).1
                    .build_order_index != state.build_order_index,
        decreases n - i,
    {
        let (bid, a) = state.building_assignments.entries[i];
        if a.build_order_index == state.build_order_index {
            proof {
                assert((state.building_assignments.entries@[i as int]).0 == bid);
            }
            match a.assignment_type {
                BuildingAssignmentType::TrainUnit(kind) => {
                    if player.minerals >= crate::units::mineral_price(kind)
                        && player.gas >= crate::units::gas_price(kind) {
                        match crate::military::lookup_unit(my_units, bid) {
                            Some(b) => {
                                if b.is_completed && !b.is_morphing {
                                    return ProducerCommand::Morph(bid, kind);
                                }
                            },
                            None => {},
                        }
                    }
                    return ProducerCommand::Wait;
                },
                _ => {
                    return ProducerCommand::Wait;
                },
            }
        }
        i += 1;
    }
    ProducerCommand::Wait
}

/// Re-issues the research command for the current upgrade item when funds
/// allow and the committed researcher is observed not yet researching.
pub fn enforce_research_assignment(
    state: &GameState,
    my_units: &Vec<OwnUnit>,
    player: &PlayerInfo,
) -> (r: ProducerCommand)
    requires
        state.wf(),
    ensures
        r matches ProducerCommand::Research(id, u) ==> {
            &&& state.building_assignments.spec_contains_key(id)
            &&& player.minerals >= crate::units::spec_upgrade_mineral_price(u)
            &&& player.gas >= crate::units::spec_upgrade_gas_price(u)
        },
        r is Morph ==> false,
        // the research is owed when the first record serving the cursor
        // commits a researcher observed not yet researching, and funds allow
        ({
            &&& state.build_order_index < state.build_order@.len()
            &&& exists|i: int| {
                &&& 0 <= i < state.building_assignments.entries@.len()
                &&& (#[trigger] state.building_assignments.entries@[i]).1
                    .build_order_index == state.build_order_index
                &&& (forall|j: int| 0 <= j < i
                    ==> (#[trigger] state.building_assignments.entries@[j]).1
                        .build_order_index != state.build_order_index)
                &&& (state.building_assignments.entries@[i].1.assignment_type
                    matches BuildingAssignmentType::ResearchUpgrade(u)
                    && player.minerals >= crate::units::spec_upgrade_mineral_price(u)
                    && player.gas >= crate::units::spec_upgrade_gas_price(u)
                    && (crate::military::find_unit(my_units@,
                        state.building_assignments.entries@[i].0) matches Some(b)
                        && !b.is_upgrading))
            }
        }) ==> r is Research,
{
    if state.build_order_index >= state.build_order.len() {
        return ProducerCommand::Wait;
    }
    let n = state.building_assignments.entries.len();
    let mut i: usize = 0;
    while i < n
        invariant
            n == state.building_assignments.entries@.len(),
            i <= n,
            state.wf(),
            forall|j: int| 0 <= j < i
                ==> (#[trigger] state.building_assignments.entries@[j]).1
                    .build_order_index != state.build_order_index,
        decreases n - i,
    {
        let (bid, a) = state.building_assignments.entries[i];
        if a.build_order_index == state.build_order_index {
            proof {
                assert((state.building_assignments.entries@[i as int]).0 == bid);
            }
            match a.assignment_type {
                BuildingAssignmentType::ResearchUpgrade(u) => {
                    if player.minerals >= crate::units::upgrade_mineral_price(u)
                        && player.gas >= crate::units::upgrade_gas_price(u) {
                        match crate::military::lookup_unit(my_units, bid) {
                            Some(b) => {
                                if !b.is_upgrading {
                                    return ProducerCommand::Research(bid, u);
                                }
                            },
                            None => {},
                        }
                    }
                    return ProducerCommand::Wait;
                },
                _ => {
                    return ProducerCommand::Wait;
                },
            }
        }
        i += 1;
    }
    ProducerCommand::Wait
}

/// Updates every squad's state machine for the tick: the gather-to-attack
/// transition for ground squads, the accordion for flying squads.
pub fn update_squads(
    state: &mut GameState,
    my_units: &Vec<OwnUnit>,
    enemies: &Vec<crate::units::EnemyUnit>,
)
    requires
        old(state).wf(),
        forall|j: int| 0 <= j < enemies@.len()
            ==> crate::geom::coord_ok((#[trigger] enemies@[j]).pos),
        forall|j: int| 0 <= j < my_units@.len()
            ==> crate::geom::coord_ok((#[trigger] my_units@[j]).pos),
    ensures
        final(state).wf(),
        final(state).build_order_index == old(state).build_order_index,
        final(state).military_squads@.len() == old(state).military_squads@.len(),
        // every squad's tick obeys the per-squad update relation
        forall|j: int| 0 <= j < final(state).military_squads@.len()
            ==> crate::military::spec_squad_update_ok(
                old(state).military_squads@[j],
                #[trigger] final(state).military_squads@[j], my_units@),
{
    let n = state.military_squads.len();
    let mut i: usize = 0;
    while i < n
        invariant
            state.wf(),
            n == state.military_squads@.len(),
            n == old(state).military_squads@.len(),
            i <= n,
            state.build_order_index == old(state).build_order_index,
            state.build_order@.len() == old(state).build_order@.len(),
            state.worker_assignments == old(state).worker_assignments,
            state.building_assignments == old(state).building_assignments,
            state.larva_responsibilities == old(state).larva_responsibilities,
            state.build_order == old(state).build_order,
            state.debug_flags == old(state).debug_flags,
            forall|j: int| 0 <= j < i
                ==> crate::military::spec_squad_update_ok(
                    old(state).military_squads@[j],
                    #[trigger] state.military_squads@[j], my_units@),
            forall|j: int| i <= j < n
                ==> #[trigger] state.military_squads@[j]
                    == old(state).military_squads@[j],
            forall|j: int| 0 <= j < enemies@.len()
                ==> crate::geom::coord_ok((#[trigger] enemies@[j]).pos),
            forall|j: int| 0 <= j < my_units@.len()
                ==> crate::geom::coord_ok((#[trigger] my_units@[j]).pos),
        decreases n - i,
    {
        let ghost pre_squads = state.military_squads@;
        let mut squad = state.military_squads.remove(i);
        proof {
            assert(squad == pre_squads[i as int]);
        }
        match squad.role {
            SquadRole::AttackAsMutas => {
                crate::mutas::muta_squad_control(&mut squad, my_units, enemies);
            },
            _ => {
                crate::military::update_squad(&mut squad, my_units);
            },
        }
        state.military_squads.insert(i, squad);
        proof {
            assert(state.military_squads@
                =~= pre_squads.update(i as int, state.military_squads@[i as int]));
            assert(state.military_squads@[i as int] == squad);
            assert forall|j: int| 0 <= j < i + 1
                implies crate::military::spec_squad_update_ok(
                    old(state).military_squads@[j],
                    #[trigger] state.military_squads@[j], my_units@) by {
                if j < i {
                    assert(state.military_squads@[j] == pre_squads[j]);
                }
            }
            assert forall|j: int| i + 1 <= j < n
                implies #[trigger] state.military_squads@[j]
                    == old(state).military_squads@[j] by {
                assert(state.military_squads@[j] == pre_squads[j]);
            }
        }
        i += 1;
    }
}

} // verus!
