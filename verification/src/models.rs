//! Request shapes the route layer exchanges with clients, as plain values.

use vstd::prelude::*;

verus! {

/// Body of a task-creation request.
pub struct CreateTaskRequest {
    pub title: String,
    pub description: Option<String>,
}

/// Body of a task-update request; absent members leave the field as it is.
pub struct TaskUpdate {
    pub title: Option<String>,
    pub description: Option<String>,
    pub completed: Option<bool>,
}

} // verus!
