//! Tasks that agents work on.

use crate::messages::Metadata;
use vstd::prelude::*;

verus! {

/// Where a task stands.
#[derive(Debug, Clone, Copy, PartialEq, Eq, Structural)]
pub enum TaskStatus {
    PendingApproval,
    Backlog,
    Ready,
    InProgress,
    Done,
}

/// A part of a task.
#[derive(Debug, Clone)]
pub struct Subtask {
    pub title: String,
    pub completed: bool,
}

/// A task. Status and priority are also held as they are told.
#[derive(Debug, Clone)]
pub struct Task {
    pub task_number: i64,
    pub title: String,
    pub description: Option<String>,
    pub status: String,
    pub priority: String,
    pub subtasks: Vec<Subtask>,
    pub metadata: Metadata,
}

} // verus!
