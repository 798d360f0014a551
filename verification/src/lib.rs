//! Decision core for a real-time-strategy agent.
//!
//! A host game engine invokes the agent once per simulation tick with a
//! snapshot of the world; the agent decides economic and military actions and
//! hands commands back.  This crate holds the decision logic itself, stated
//! over plain values: a build-order progression state machine, worker and
//! production allocation ledgers, military squad coordination with
//! threat-avoidance steering, and a grid pathfinder.  The engine adapter and
//! the status side-channel live outside the crate and exchange snapshots and
//! commands with it.

pub mod geom;
pub mod units;
pub mod pathfinder;
pub mod ledger;
pub mod squads;
pub mod build_order;
pub mod worker_alloc;
pub mod steering;
pub mod military;
pub mod build_location;
pub mod expansion;
pub mod mutas;
pub mod state;
pub mod status;
