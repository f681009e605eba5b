//! Domain rule engine for a personal organizer.
//!
//! The library models the organizer's persistent state — folders, files,
//! categories and tasks — as an in-memory [`repository::Repository`] and
//! verifies the decision logic that governs it: task-kind resolution from
//! an optional category, parent validation for subtasks, kind-directed
//! task construction with a spaced-repetition recall schedule, folder
//! path derivation from the ancestor chain with single-root and
//! case-insensitive sibling-uniqueness rules, and the task status
//! lifecycle. Persistence, the on-disk configuration file and all other
//! I/O live outside the library and exchange plain values with it.

pub mod casing;
pub mod categories;
pub mod clock;
pub mod config;
pub mod errors;
pub mod files;
pub mod folders;
pub mod lifecycle;
pub mod models;
pub mod repository;
pub mod tasks;
