//! Conditional launching of autostart applications.
//!
//! The library holds the verified core: the application record model,
//! the condition evaluator, the launch orchestrator (interactive tick and
//! background run) and the registry reconciler that merges managed and
//! OS-discovered autostart entries.

pub mod config;
pub mod conditions;
pub mod launch;
pub mod order;
pub mod registry;
pub mod os;
pub mod launcher;
pub mod view;
pub mod process;
