//! Data model of the world as the agent sees it.
//!
//! The engine hands the agent, once per tick, plain-value snapshots of its own
//! units, enemy units, resource nodes and player totals.  Unit kinds carry the
//! agent's static knowledge of the tech tree: costs, builder relationships and
//! building classification.

use vstd::prelude::*;

verus! {

/// The unit kinds the agent's own plans speak of.
#[derive(Clone, Copy, Debug, PartialEq, Eq, Structural)]
pub enum UnitKind {
    Larva,
    Egg,
    Drone,
    Overlord,
    Zergling,
    Hydralisk,
    Mutalisk,
    Hatchery,
    Lair,
    Hive,
    SpawningPool,
    Extractor,
    EvolutionChamber,
    CreepColony,
    SunkenColony,
    HydraliskDen,
    Other,
}

/// The upgrade kinds the agent's plans speak of.
#[derive(Clone, Copy, Debug, PartialEq, Eq, Structural)]
pub enum UpgradeKind {
    MetabolicBoost,
    MeleeAttacks,
    MissileAttacks,
    GroovedSpines,
    Other,
}

/// Engine order states the decision logic distinguishes.
#[derive(Clone, Copy, Debug, PartialEq, Eq, Structural)]
pub enum OrderKind {
    ReturnMinerals,
    ReturnGas,
    ResetCollision,
    Move,
    PlayerGuard,
    Stop,
    Guard,
    MoveToMinerals,
    WaitForMinerals,
    MiningMinerals,
    Harvest1,
    Harvest2,
    Harvest3,
    Harvest4,
    MoveToGas,
    WaitForGas,
    HarvestGas,
    AttackUnit,
    AttackMove,
    PlaceBuilding,
    ConstructingBuilding,
    DroneBuild,
    Other,
}

/// Whether the kind is a structure.
pub open spec fn spec_is_building(k: UnitKind) -> bool {
    match k {
        UnitKind::Hatchery | UnitKind::Lair | UnitKind::Hive | UnitKind::SpawningPool
        | UnitKind::Extractor | UnitKind::EvolutionChamber | UnitKind::CreepColony
        | UnitKind::SunkenColony | UnitKind::HydraliskDen => true,
        _ => false,
    }
}

pub fn is_building(k: UnitKind) -> (r: bool)
    ensures
        r == spec_is_building(k),
{
    match k {
        UnitKind::Hatchery | UnitKind::Lair | UnitKind::Hive | UnitKind::SpawningPool
        | UnitKind::Extractor | UnitKind::EvolutionChamber | UnitKind::CreepColony
        | UnitKind::SunkenColony | UnitKind::HydraliskDen => true,
        _ => false,
    }
}

/// Whether the kind is a resource depot (a base that workers return to).
pub open spec fn spec_is_resource_depot(k: UnitKind) -> bool {
    k == UnitKind::Hatchery || k == UnitKind::Lair || k == UnitKind::Hive
}

pub fn is_resource_depot(k: UnitKind) -> (r: bool)
    ensures
        r == spec_is_resource_depot(k),
{
    match k {
        UnitKind::Hatchery | UnitKind::Lair | UnitKind::Hive => true,
        _ => false,
    }
}

/// Mineral cost of producing the kind.
pub open spec fn spec_mineral_price(k: UnitKind) -> int {
    match k {
        UnitKind::Drone => 50,
        UnitKind::Overlord => 100,
        UnitKind::Zergling => 50,
        UnitKind::Hydralisk => 75,
        UnitKind::Mutalisk => 100,
        UnitKind::Hatchery => 300,
        UnitKind::Lair => 150,
        UnitKind::Hive => 200,
        UnitKind::SpawningPool => 200,
        UnitKind::Extractor => 50,
        UnitKind::EvolutionChamber => 75,
        UnitKind::CreepColony => 75,
        UnitKind::SunkenColony => 50,
        UnitKind::HydraliskDen => 100,
        _ => 0,
    }
}

pub fn mineral_price(k: UnitKind) -> (r: i32)
    ensures
        r as int == spec_mineral_price(k),
        0 <= r <= 300,
{
    match k {
        UnitKind::Drone => 50,
        UnitKind::Overlord => 100,
        UnitKind::Zergling => 50,
        UnitKind::Hydralisk => 75,
        UnitKind::Mutalisk => 100,
        UnitKind::Hatchery => 300,
        UnitKind::Lair => 150,
        UnitKind::Hive => 200,
        UnitKind::SpawningPool => 200,
        UnitKind::Extractor => 50,
        UnitKind::EvolutionChamber => 75,
        UnitKind::CreepColony => 75,
        UnitKind::SunkenColony => 50,
        UnitKind::HydraliskDen => 100,
        _ => 0,
    }
}

/// Gas cost of producing the kind.
pub open spec fn spec_gas_price(k: UnitKind) -> int {
    match k {
        UnitKind::Hydralisk => 25,
        UnitKind::Mutalisk => 100,
        UnitKind::Lair => 100,
        UnitKind::Hive => 150,
        UnitKind::HydraliskDen => 50,
        _ => 0,
    }
}

pub fn gas_price(k: UnitKind) -> (r: i32)
    ensures
        r as int == spec_gas_price(k),
        0 <= r <= 150,
{
    match k {
        UnitKind::Hydralisk => 25,
        UnitKind::Mutalisk => 100,
        UnitKind::Lair => 100,
        UnitKind::Hive => 150,
        UnitKind::HydraliskDen => 50,
        _ => 0,
    }
}

/// The kind that produces or morphs into `k`.
pub open spec fn spec_what_builds(k: UnitKind) -> UnitKind {
    match k {
        UnitKind::Drone | UnitKind::Overlord | UnitKind::Zergling | UnitKind::Hydralisk
        | UnitKind::Mutalisk | UnitKind::Egg => UnitKind::Larva,
        UnitKind::Hatchery | UnitKind::SpawningPool | UnitKind::Extractor
        | UnitKind::EvolutionChamber | UnitKind::CreepColony
        | UnitKind::HydraliskDen => UnitKind::Drone,
        UnitKind::Lair => UnitKind::Hatchery,
        UnitKind::Hive => UnitKind::Lair,
        UnitKind::SunkenColony => UnitKind::CreepColony,
        _ => UnitKind::Other,
    }
}

pub fn what_builds(k: UnitKind) -> (r: UnitKind)
    ensures
        r == spec_what_builds(k),
{
    match k {
        UnitKind::Drone | UnitKind::Overlord | UnitKind::Zergling | UnitKind::Hydralisk
        | UnitKind::Mutalisk | UnitKind::Egg => UnitKind::Larva,
        UnitKind::Hatchery | UnitKind::SpawningPool | UnitKind::Extractor
        | UnitKind::EvolutionChamber | UnitKind::CreepColony
        | UnitKind::HydraliskDen => UnitKind::Drone,
        UnitKind::Lair => UnitKind::Hatchery,
        UnitKind::Hive => UnitKind::Lair,
        UnitKind::SunkenColony => UnitKind::CreepColony,
        _ => UnitKind::Other,
    }
}

/// The structure that researches the upgrade.
pub open spec fn spec_what_upgrades(u: UpgradeKind) -> UnitKind {
    match u {
        UpgradeKind::MetabolicBoost => UnitKind::SpawningPool,
        UpgradeKind::MeleeAttacks => UnitKind::EvolutionChamber,
        UpgradeKind::MissileAttacks => UnitKind::EvolutionChamber,
        UpgradeKind::GroovedSpines => UnitKind::HydraliskDen,
        UpgradeKind::Other => UnitKind::Other,
    }
}

pub fn what_upgrades(u: UpgradeKind) -> (r: UnitKind)
    ensures
        r == spec_what_upgrades(u),
{
    match u {
        UpgradeKind::MetabolicBoost => UnitKind::SpawningPool,
        UpgradeKind::MeleeAttacks => UnitKind::EvolutionChamber,
        UpgradeKind::MissileAttacks => UnitKind::EvolutionChamber,
        UpgradeKind::GroovedSpines => UnitKind::HydraliskDen,
        UpgradeKind::Other => UnitKind::Other,
    }
}

/// Mineral and gas cost of researching the upgrade (level-independent model).
pub open spec fn spec_upgrade_mineral_price(u: UpgradeKind) -> int {
    match u {
        UpgradeKind::MetabolicBoost => 100,
        UpgradeKind::MeleeAttacks => 100,
        UpgradeKind::MissileAttacks => 100,
        UpgradeKind::GroovedSpines => 150,
        UpgradeKind::Other => 0,
    }
}

pub fn upgrade_mineral_price(u: UpgradeKind) -> (r: i32)
    ensures
        r as int == spec_upgrade_mineral_price(u),
{
    match u {
        UpgradeKind::MetabolicBoost => 100,
        UpgradeKind::MeleeAttacks => 100,
        UpgradeKind::MissileAttacks => 100,
        UpgradeKind::GroovedSpines => 150,
        UpgradeKind::Other => 0,
    }
}

pub open spec fn spec_upgrade_gas_price(u: UpgradeKind) -> int {
    match u {
        UpgradeKind::MetabolicBoost => 100,
        UpgradeKind::MeleeAttacks => 100,
        UpgradeKind::MissileAttacks => 100,
        UpgradeKind::GroovedSpines => 150,
        UpgradeKind::Other => 0,
    }
}

pub fn upgrade_gas_price(u: UpgradeKind) -> (r: i32)
    ensures
        r as int == spec_upgrade_gas_price(u),
{
    match u {
        UpgradeKind::MetabolicBoost => 100,
        UpgradeKind::MeleeAttacks => 100,
        UpgradeKind::MissileAttacks => 100,
        UpgradeKind::GroovedSpines => 150,
        UpgradeKind::Other => 0,
    }
}

/// Snapshot of one of the agent's own units, taken at the start of a tick.
#[derive(Clone, Copy, Debug)]
pub struct OwnUnit {
    pub id: usize,
    pub pos: (i32, i32),
    pub kind: UnitKind,
    pub is_completed: bool,
    pub is_idle: bool,
    pub is_constructing: bool,
    pub is_gathering: bool,
    pub is_morphing: bool,
    pub is_upgrading: bool,
    /// For a structure currently researching: which upgrade.
    pub upgrade_in_progress: UpgradeKind,
    /// For an egg: the kind it is morphing into.
    pub build_type: UnitKind,
    pub order: OrderKind,
    pub order_target: Option<usize>,
    pub order_target_position: Option<(i32, i32)>,
}

/// Snapshot of a hostile unit, reduced to what the military logic reads.
#[derive(Clone, Copy, Debug)]
pub struct EnemyUnit {
    pub id: usize,
    pub pos: (i32, i32),
    pub is_building: bool,
    pub is_completed: bool,
    pub is_worker: bool,
    /// Whether the unit is an enemy drone: drones are left out of threat
    /// reckoning and of armed-enemy engagement filters.
    pub is_drone: bool,
    pub is_healer: bool,
    pub is_static_defense: bool,
    pub is_egg_or_larva: bool,
    pub has_ground_weapon: bool,
    pub has_air_weapon: bool,
    /// Maximum range of the ground weapon, in pixels (0 if none).
    pub ground_range: i32,
    /// Maximum range of the air weapon, in pixels (0 if none).
    pub air_range: i32,
    pub is_visible: bool,
}

/// Snapshot of a static resource node (mineral patch or geyser).
#[derive(Clone, Copy, Debug)]
pub struct ResourceNode {
    pub id: usize,
    pub pos: (i32, i32),
    pub amount: i32,
    pub is_gas: bool,
    pub exists: bool,
}

/// The player's own aggregate totals for the tick.
#[derive(Clone, Copy, Debug)]
pub struct PlayerInfo {
    pub minerals: i32,
    pub gas: i32,
    /// Supply totals in full units (the engine reports doubled values;
    /// the adapter halves them).
    pub supply_total: i32,
    pub supply_used: i32,
}

/// Region metadata used to pick defensible ground.
#[derive(Clone, Copy, Debug)]
pub struct RegionInfo {
    pub id: i32,
    pub defense_priority: i32,
    pub bounds_left: i32,
    pub bounds_top: i32,
    pub bounds_right: i32,
    pub bounds_bottom: i32,
}

/// Whether one of the agent's own units belongs in a combat squad: neither a
/// structure nor a larva, egg, drone or overlord.
pub open spec fn spec_is_military_unit(k: UnitKind) -> bool {
    !spec_is_building(k) && k != UnitKind::Larva && k != UnitKind::Egg && k != UnitKind::Drone
        && k != UnitKind::Overlord
}

pub fn is_military_unit(u: &OwnUnit) -> (r: bool)
    ensures
        r == spec_is_military_unit(u.kind),
{
    match u.kind {
        UnitKind::Larva | UnitKind::Egg | UnitKind::Drone | UnitKind::Overlord => false,
        k => !is_building(k),
    }
}

} // verus!
