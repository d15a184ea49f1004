use vstd::prelude::*;

verus! {

/// Tells a node that a task has been assigned to it.
pub struct TaskAssignmentNotification {
    pub task_id: u64,
    pub assigned_node_id: String,
    pub details: String,
}

} // verus!
