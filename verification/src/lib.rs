//! Core of a permissioned distributed ledger: a deterministic peer topology,
//! a world-state projection mutated by a closed set of policy-gated
//! instructions, a quorum-driven block commitment pipeline, and an
//! append-only, replayable block store.
//!
//! The `accessor` module holds the model of accessor-generation attributes
//! used by the surrounding tooling; it is independent of the ledger proper.

pub mod accessor;
pub mod block;
pub mod chain;
pub mod consensus;
pub mod execute;
pub mod instruction;
pub mod policy;
pub mod snapshot;
pub mod store;
pub mod topology;
pub mod transaction;
pub mod world;
