//! Scratchpad workspaces for the Niri compositor.
//!
//! The library holds the configuration rules, the persisted return targets and the decision
//! engine of the scratchpad daemon. The engine is a state machine: it asks its driver for
//! compositor snapshots, state saves, clock readings and compositor actions, and it decides
//! what comes next from what the driver hands back.

pub mod text;
pub mod pattern;
pub mod model;
pub mod config;
pub mod planning;
pub mod engine;
pub mod laws;
