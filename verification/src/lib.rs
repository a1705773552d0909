//! Job-orchestration core for a desktop 3D-asset generation tool.
//!
//! The library tracks generation jobs from submission to a terminal outcome:
//! a keyed job store with derived views, a lifecycle coordinator that applies
//! status callbacks under a write-through-on-terminal policy, and a startup
//! reconciler that fails jobs left behind by an unclean shutdown.

pub mod config;
pub mod events;
pub mod generator;
pub mod job;
pub mod laws;
pub mod lifecycle;
pub mod model;
pub mod prompt;
pub mod schemas;
pub mod status;
pub mod store;
pub mod text;
pub mod ui_state;
pub mod worker;
