//! The task status state machine.
//!
//! Statuses form a closed set and the generic status-update path accepts
//! only whitelisted transitions, rather than writing status free-form.

use vstd::prelude::*;
use crate::models::TaskStatus;

verus! {

/// The adjacency whitelist of the status lifecycle: a fresh root project
/// is started manually (`not_initialized` → `to_do` or `in_progress`),
/// the standard progression runs `to_do` → `in_progress` → `done`, and a
/// done task may be reopened (`done` → `in_progress`). No state is
/// terminal. `recall` is written only by recall-specific updates and the
/// done-flip, never by the generic status-update path.
pub open spec fn allowed_transition(from: TaskStatus, to: TaskStatus) -> bool {
    ||| from == TaskStatus::NotInitialized && (to == TaskStatus::ToDo || to
        == TaskStatus::InProgress)
    ||| from == TaskStatus::ToDo && to == TaskStatus::InProgress
    ||| from == TaskStatus::InProgress && to == TaskStatus::Done
    ||| from == TaskStatus::Done && to == TaskStatus::InProgress
}

/// Decides the transition whitelist.
pub fn can_transition(from: TaskStatus, to: TaskStatus) -> (r: bool)
    ensures
        r == allowed_transition(from, to),
{
    match (from, to) {
        (TaskStatus::NotInitialized, TaskStatus::ToDo) => true,
        (TaskStatus::NotInitialized, TaskStatus::InProgress) => true,
        (TaskStatus::ToDo, TaskStatus::InProgress) => true,
        (TaskStatus::InProgress, TaskStatus::Done) => true,
        (TaskStatus::Done, TaskStatus::InProgress) => true,
        _ => false,
    }
}

} // verus!
