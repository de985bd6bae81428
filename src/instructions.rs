use vstd::prelude::*;

use crate::error::TaskManagerError;
use crate::laws::{
    lemma_add_preserves_wf, lemma_complete_preserves_wf, lemma_delete_preserves_wf,
};
use crate::model::{
    add_task_result, complete_task_result, delete_task_result, initialized, matches_outcome,
};
use crate::state::{Identity, Task, TaskList, MAX_DESCRIPTION_LEN, MAX_TASKS};

verus! {

/// The accounts of an `initialize` call: the identity that will own the list.
pub struct Initialize {
    pub user: Identity,
}

/// The accounts of an `add_task` call: the list and the signing caller.
pub struct AddTask {
    pub task_list: TaskList,
    pub user: Identity,
}

/// The accounts of a `complete_task` call: the list and the signing caller.
pub struct CompleteTask {
    pub task_list: TaskList,
    pub user: Identity,
}

/// The accounts of a `delete_task` call: the list and the signing caller.
pub struct DeleteTask {
    pub task_list: TaskList,
    pub user: Identity,
}

/// Creates the empty task list of `ctx.user`.
pub fn initialize(ctx: &Initialize) -> (r: TaskList)
    ensures
        r@ == initialized(ctx.user@),
        r@.wf(),
{
    let r = TaskList { owner: ctx.user, task_count: 0, tasks: Vec::new() };
    proof {
        assert(r@.tasks =~= Seq::empty());
    }
    r
}

/// Appends a task with `description` to the list, with the counter as its id,
/// and advances the counter. Fails, changing nothing, when the caller is not
/// the owner, the description is too long, or the list is full.
pub fn add_task(ctx: &mut AddTask, description: String) -> (r: Result<(), TaskManagerError>)
    requires
        old(ctx).task_list.task_count < u64::MAX,
    ensures
        final(ctx).user == old(ctx).user,
        old(ctx).task_list@.wf() ==> final(ctx).task_list@.wf(),
        matches_outcome(
            r,
            old(ctx).task_list@,
            final(ctx).task_list@,
            add_task_result(old(ctx).task_list@, old(ctx).user@, description@),
        ),
{
    if ctx.task_list.owner != ctx.user {
        return Err(TaskManagerError::Unauthorized);
    }
    if description.as_str().as_bytes().len() > MAX_DESCRIPTION_LEN {
        return Err(TaskManagerError::DescriptionTooLong);
    }
    if ctx.task_list.tasks.len() >= MAX_TASKS {
        return Err(TaskManagerError::TooManyTasks);
    }
    let ghost before = ctx.task_list@;
    let task_id = ctx.task_list.task_count;
    ctx.task_list.tasks.push(Task { id: task_id, description, completed: false });
    ctx.task_list.task_count = task_id + 1;
    proof {
        let expected = add_task_result(before, old(ctx).user@, description@);
        assert(ctx.task_list@.tasks =~= expected->Ok_0.tasks);
        if before.wf() {
            lemma_add_preserves_wf(before, old(ctx).user@, description@);
        }
    }
    Ok(())
}

/// Marks the task at position `task_id` completed. Fails, changing nothing,
/// when the caller is not the owner, there is no task at that position, or it
/// is already completed.
pub fn complete_task(ctx: &mut CompleteTask, task_id: u64) -> (r: Result<(), TaskManagerError>)
    ensures
        final(ctx).user == old(ctx).user,
        old(ctx).task_list@.wf() ==> final(ctx).task_list@.wf(),
        matches_outcome(
            r,
            old(ctx).task_list@,
            final(ctx).task_list@,
            complete_task_result(old(ctx).task_list@, old(ctx).user@, task_id as nat),
        ),
{
    if ctx.task_list.owner != ctx.user {
        return Err(TaskManagerError::Unauthorized);
    }
    if task_id >= ctx.task_list.tasks.len() as u64 {
        return Err(TaskManagerError::TaskNotFound);
    }
    let i = task_id as usize;
    if ctx.task_list.tasks[i].completed {
        return Err(TaskManagerError::TaskAlreadyCompleted);
    }
    let ghost before = ctx.task_list@;
    ctx.task_list.tasks[i].completed = true;
    proof {
        let expected = complete_task_result(before, old(ctx).user@, task_id as nat);
        assert(ctx.task_list@.tasks =~= expected->Ok_0.tasks);
        if before.wf() {
            lemma_complete_preserves_wf(before, old(ctx).user@, task_id as nat);
        }
    }
    Ok(())
}

/// Removes the task at position `task_id`, moving the later tasks one
/// position down; the counter is kept. Fails, changing nothing, when the
/// caller is not the owner or there is no task at that position.
pub fn delete_task(ctx: &mut DeleteTask, task_id: u64) -> (r: Result<(), TaskManagerError>)
    ensures
        final(ctx).user == old(ctx).user,
        old(ctx).task_list@.wf() ==> final(ctx).task_list@.wf(),
        matches_outcome(
            r,
            old(ctx).task_list@,
            final(ctx).task_list@,
            delete_task_result(old(ctx).task_list@, old(ctx).user@, task_id as nat),
        ),
{
    if ctx.task_list.owner != ctx.user {
        return Err(TaskManagerError::Unauthorized);
    }
    if task_id >= ctx.task_list.tasks.len() as u64 {
        return Err(TaskManagerError::TaskNotFound);
    }
    let ghost before = ctx.task_list@;
    ctx.task_list.tasks.remove(task_id as usize);
    proof {
        let expected = delete_task_result(before, old(ctx).user@, task_id as nat);
        assert(ctx.task_list@.tasks =~= expected->Ok_0.tasks);
        if before.wf() {
            lemma_delete_preserves_wf(before, old(ctx).user@, task_id as nat);
        }
    }
    Ok(())
}

} // verus!
