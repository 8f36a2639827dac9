//! A per-entity state machine: triggers decide when an entity leaves its current state, and the
//! transition engine swaps the component bundles of the old and new states.

pub mod machine;
pub mod schedule;
pub mod state;
pub mod trigger;
pub mod world;
