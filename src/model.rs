use vstd::prelude::*;

use crate::error::TaskManagerError;
use crate::state::{description_len, TaskListView, TaskView, MAX_DESCRIPTION_LEN, MAX_TASKS};

verus! {

/// A freshly initialized list of `owner`: no tasks, counter at zero.
pub open spec fn initialized(owner: Seq<u8>) -> TaskListView {
    TaskListView { owner, task_count: 0, tasks: Seq::empty() }
}

/// The outcome of adding a task with description `d` to `l` on behalf of
/// `caller`: the new list, or the first check that fails.
pub open spec fn add_task_result(l: TaskListView, caller: Seq<u8>, d: Seq<char>) -> Result<
    TaskListView,
    TaskManagerError,
> {
    if caller != l.owner {
        Err(TaskManagerError::Unauthorized)
    } else if description_len(d) > MAX_DESCRIPTION_LEN {
        Err(TaskManagerError::DescriptionTooLong)
    } else if l.tasks.len() >= MAX_TASKS {
        Err(TaskManagerError::TooManyTasks)
    } else {
        Ok(
            TaskListView {
                task_count: l.task_count + 1,
                tasks: l.tasks.push(TaskView { id: l.task_count, description: d, completed: false }),
                ..l
            },
        )
    }
}

/// The outcome of marking the task at position `pos` of `l` completed on
/// behalf of `caller`.
pub open spec fn complete_task_result(l: TaskListView, caller: Seq<u8>, pos: nat) -> Result<
    TaskListView,
    TaskManagerError,
> {
    if caller != l.owner {
        Err(TaskManagerError::Unauthorized)
    } else if pos >= l.tasks.len() {
        Err(TaskManagerError::TaskNotFound)
    } else if l.tasks[pos as int].completed {
        Err(TaskManagerError::TaskAlreadyCompleted)
    } else {
        Ok(
            TaskListView {
                tasks: l.tasks.update(pos as int, TaskView { completed: true, ..l.tasks[pos as int] }),
                ..l
            },
        )
    }
}

/// The outcome of deleting the task at position `pos` of `l` on behalf of
/// `caller`.
pub open spec fn delete_task_result(l: TaskListView, caller: Seq<u8>, pos: nat) -> Result<
    TaskListView,
    TaskManagerError,
> {
    if caller != l.owner {
        Err(TaskManagerError::Unauthorized)
    } else if pos >= l.tasks.len() {
        Err(TaskManagerError::TaskNotFound)
    } else {
        Ok(TaskListView { tasks: l.tasks.remove(pos as int), ..l })
    }
}

/// The outcome of adding tasks with the descriptions `ds`, in order, to `l`
/// on behalf of `caller`: the list after the last add, or the error of the
/// first add that fails.
pub open spec fn add_tasks_result(l: TaskListView, caller: Seq<u8>, ds: Seq<Seq<char>>) -> Result<
    TaskListView,
    TaskManagerError,
>
    decreases ds.len(),
{
    if ds.len() == 0 {
        Ok(l)
    } else {
        match add_tasks_result(l, caller, ds.drop_last()) {
            Ok(m) => add_task_result(m, caller, ds.last()),
            Err(e) => Err(e),
        }
    }
}

/// An operation returned `r` and left the list `after` where it was `before`,
/// as the model outcome `expected` says: on success the new list, on failure
/// the same error and the list unchanged.
pub open spec fn matches_outcome(
    r: Result<(), TaskManagerError>,
    before: TaskListView,
    after: TaskListView,
    expected: Result<TaskListView, TaskManagerError>,
) -> bool {
    match expected {
        Ok(l) => r is Ok && after == l,
        Err(e) => r == Err::<(), TaskManagerError>(e) && after == before,
    }
}

} // verus!
