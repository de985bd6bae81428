use vstd::prelude::*;

verus! {

/// The ways an operation on a task list can fail. Every failure is detected
/// before anything is changed.
#[derive(Clone, Copy, Debug, PartialEq, Eq, Structural)]
pub enum TaskManagerError {
    /// The description is longer than the allowed number of bytes.
    DescriptionTooLong,
    /// The list already holds as many tasks as it may.
    TooManyTasks,
    /// The position does not index an existing task.
    TaskNotFound,
    /// The task at that position is already completed.
    TaskAlreadyCompleted,
    /// The caller is not the owner of the list.
    Unauthorized,
}

impl TaskManagerError {
    /// The message shown to a user for this error.
    pub fn message(&self) -> (r: &'static str) {
        match self {
            TaskManagerError::DescriptionTooLong => "Description is too long. Maximum 200 characters.",
            TaskManagerError::TooManyTasks => "Maximum number of tasks (40) reached.",
            TaskManagerError::TaskNotFound => "Task not found.",
            TaskManagerError::TaskAlreadyCompleted => "Task is already completed.",
            TaskManagerError::Unauthorized => "Unauthorized: Only the owner can perform this action.",
        }
    }
}

} // verus!
