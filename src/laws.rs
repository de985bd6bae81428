use vstd::prelude::*;

use crate::error::TaskManagerError;
use crate::model::{
    add_task_result, add_tasks_result, complete_task_result, delete_task_result, initialized,
    matches_outcome,
};
use crate::state::{description_len, TaskListView, TaskView, MAX_DESCRIPTION_LEN, MAX_TASKS};

verus! {

/// Adding a task keeps the list's invariant.
pub proof fn lemma_add_preserves_wf(l: TaskListView, caller: Seq<u8>, d: Seq<char>)
    requires
        l.wf(),
        add_task_result(l, caller, d) is Ok,
    ensures
        add_task_result(l, caller, d)->Ok_0.wf(),
{
    let m = add_task_result(l, caller, d)->Ok_0;
    assert forall|i: int| 0 <= i < m.tasks.len() implies {
        &&& description_len(#[trigger] m.tasks[i].description) <= MAX_DESCRIPTION_LEN
        &&& m.tasks[i].id < m.task_count
    } by {
        if i < l.tasks.len() {
            assert(m.tasks[i] == l.tasks[i]);
        }
    }
    assert forall|i: int, j: int|
        0 <= i < m.tasks.len() && 0 <= j < m.tasks.len() && i != j implies #[trigger] m.tasks[i].id
        != #[trigger] m.tasks[j].id by {
        if i < l.tasks.len() {
            assert(m.tasks[i] == l.tasks[i]);
            assert(description_len(l.tasks[i].description) <= MAX_DESCRIPTION_LEN);
        }
        if j < l.tasks.len() {
            assert(m.tasks[j] == l.tasks[j]);
            assert(description_len(l.tasks[j].description) <= MAX_DESCRIPTION_LEN);
        }
    }
}

/// Completing a task keeps the list's invariant.
pub proof fn lemma_complete_preserves_wf(l: TaskListView, caller: Seq<u8>, pos: nat)
    requires
        l.wf(),
        complete_task_result(l, caller, pos) is Ok,
    ensures
        complete_task_result(l, caller, pos)->Ok_0.wf(),
{
    let m = complete_task_result(l, caller, pos)->Ok_0;
    assert forall|i: int| 0 <= i < m.tasks.len() implies m.tasks[i].id == l.tasks[i].id
        && m.tasks[i].description == l.tasks[i].description by {}
    assert forall|i: int| 0 <= i < m.tasks.len() implies {
        &&& description_len(#[trigger] m.tasks[i].description) <= MAX_DESCRIPTION_LEN
        &&& m.tasks[i].id < m.task_count
    } by {
        assert(m.tasks[i].description == l.tasks[i].description);
    }
    assert forall|i: int, j: int|
        0 <= i < m.tasks.len() && 0 <= j < m.tasks.len() && i != j implies #[trigger] m.tasks[i].id
        != #[trigger] m.tasks[j].id by {
        assert(m.tasks[i].id == l.tasks[i].id);
        assert(m.tasks[j].id == l.tasks[j].id);
    }
}

/// Deleting a task keeps the list's invariant.
pub proof fn lemma_delete_preserves_wf(l: TaskListView, caller: Seq<u8>, pos: nat)
    requires
        l.wf(),
        delete_task_result(l, caller, pos) is Ok,
    ensures
        delete_task_result(l, caller, pos)->Ok_0.wf(),
{
    let m = delete_task_result(l, caller, pos)->Ok_0;
    assert forall|i: int| 0 <= i < m.tasks.len() implies #[trigger] m.tasks[i] == l.tasks[if i
        < pos {
        i
    } else {
        i + 1
    }] by {}
    assert forall|i: int| 0 <= i < m.tasks.len() implies {
        &&& description_len(#[trigger] m.tasks[i].description) <= MAX_DESCRIPTION_LEN
        &&& m.tasks[i].id < m.task_count
    } by {
        let k = if i < pos { i } else { i + 1 };
        assert(m.tasks[i] == l.tasks[k]);
    }
    assert forall|i: int, j: int|
        0 <= i < m.tasks.len() && 0 <= j < m.tasks.len() && i != j implies #[trigger] m.tasks[i].id
        != #[trigger] m.tasks[j].id by {
        let ki = if i < pos { i } else { i + 1 };
        let kj = if j < pos { j } else { j + 1 };
        assert(m.tasks[i] == l.tasks[ki]);
        assert(m.tasks[j] == l.tasks[kj]);
    }
}

/// Adds on a list that all succeed lengthen its task sequence by one task per
/// add and advance its counter by the same number, appending the tasks in
/// order with consecutive ids.
pub proof fn lemma_adds_extend(l: TaskListView, caller: Seq<u8>, ds: Seq<Seq<char>>)
    requires
        add_tasks_result(l, caller, ds) is Ok,
    ensures
        ({
            let m = add_tasks_result(l, caller, ds)->Ok_0;
            &&& m.owner == l.owner
            &&& m.tasks.len() == l.tasks.len() + ds.len()
            &&& m.task_count == l.task_count + ds.len()
            &&& forall|i: int| 0 <= i < l.tasks.len() ==> #[trigger] m.tasks[i] == l.tasks[i]
            &&& forall|k: int|
                0 <= k < ds.len() ==> #[trigger] m.tasks[l.tasks.len() + k] == (TaskView {
                    id: (l.task_count + k) as nat,
                    description: ds[k],
                    completed: false,
                })
        }),
    decreases ds.len(),
{
    if ds.len() > 0 {
        let front = ds.drop_last();
        lemma_adds_extend(l, caller, front);
        let p = add_tasks_result(l, caller, front)->Ok_0;
        let m = add_tasks_result(l, caller, ds)->Ok_0;
        assert(m == add_task_result(p, caller, ds.last())->Ok_0);
        assert forall|k: int| 0 <= k < ds.len() implies #[trigger] m.tasks[l.tasks.len() + k] == (
        TaskView { id: (l.task_count + k) as nat, description: ds[k], completed: false }) by {
            if k < front.len() {
                assert(m.tasks[l.tasks.len() + k] == p.tasks[l.tasks.len() + k]);
                assert(front[k] == ds[k]);
            }
        }
    }
}

/// Starting from a freshly initialized list, the owner's adds of up to
/// `MAX_TASKS` descriptions of at most `MAX_DESCRIPTION_LEN` bytes all
/// succeed; after any run of successful adds, the number of tasks and the
/// counter both equal the number of adds.
pub proof fn lemma_adds_from_initialized(owner: Seq<u8>, ds: Seq<Seq<char>>)
    ensures
        ds.len() <= MAX_TASKS && (forall|k: int|
            0 <= k < ds.len() ==> description_len(#[trigger] ds[k]) <= MAX_DESCRIPTION_LEN)
            ==> add_tasks_result(initialized(owner), owner, ds) is Ok,
        add_tasks_result(initialized(owner), owner, ds) is Ok ==> {
            let m = add_tasks_result(initialized(owner), owner, ds)->Ok_0;
            &&& m.tasks.len() == ds.len()
            &&& m.task_count == ds.len()
            &&& forall|k: int|
                0 <= k < ds.len() ==> #[trigger] m.tasks[k] == (TaskView {
                    id: k as nat,
                    description: ds[k],
                    completed: false,
                })
        },
    decreases ds.len(),
{
    let l = initialized(owner);
    if ds.len() <= MAX_TASKS && (forall|k: int|
        0 <= k < ds.len() ==> description_len(#[trigger] ds[k]) <= MAX_DESCRIPTION_LEN) {
        if ds.len() > 0 {
            let front = ds.drop_last();
            assert forall|k: int| 0 <= k < front.len() implies description_len(#[trigger] front[k])
                <= MAX_DESCRIPTION_LEN by {
                assert(front[k] == ds[k]);
            }
            lemma_adds_from_initialized(owner, front);
            lemma_adds_extend(l, owner, front);
            assert(description_len(ds[ds.len() - 1]) <= MAX_DESCRIPTION_LEN);
        }
    }
    if add_tasks_result(l, owner, ds) is Ok {
        lemma_adds_extend(l, owner, ds);
        let m = add_tasks_result(l, owner, ds)->Ok_0;
        assert forall|k: int| 0 <= k < ds.len() implies #[trigger] m.tasks[k] == (TaskView {
            id: k as nat,
            description: ds[k],
            completed: false,
        }) by {
            assert(m.tasks[l.tasks.len() + k] == m.tasks[k]);
        }
    }
}

/// When the list already holds `MAX_TASKS` tasks, the owner's add of a valid
/// description fails with `TooManyTasks` and leaves the list as it was.
pub proof fn lemma_add_to_full_list(
    l: TaskListView,
    d: Seq<char>,
    r: Result<(), TaskManagerError>,
    after: TaskListView,
)
    requires
        l.tasks.len() == MAX_TASKS,
        description_len(d) <= MAX_DESCRIPTION_LEN,
        matches_outcome(r, l, after, add_task_result(l, l.owner, d)),
    ensures
        r == Err::<(), TaskManagerError>(TaskManagerError::TooManyTasks),
        after == l,
{
}

/// The owner's add of a description longer than `MAX_DESCRIPTION_LEN` bytes
/// fails with `DescriptionTooLong`; one of exactly `MAX_DESCRIPTION_LEN` bytes
/// succeeds on a list that is not full.
pub proof fn lemma_description_bound(l: TaskListView, d: Seq<char>)
    ensures
        description_len(d) > MAX_DESCRIPTION_LEN ==> add_task_result(l, l.owner, d) == Err::<
            TaskListView,
            TaskManagerError,
        >(TaskManagerError::DescriptionTooLong),
        description_len(d) == MAX_DESCRIPTION_LEN && l.tasks.len() < MAX_TASKS ==> add_task_result(
            l,
            l.owner,
            d,
        ) is Ok,
{
}

/// Completing the same position twice: the first call marks the task
/// completed, the second fails with `TaskAlreadyCompleted`.
pub proof fn lemma_complete_twice(l: TaskListView, caller: Seq<u8>, pos: nat)
    requires
        complete_task_result(l, caller, pos) is Ok,
    ensures
        ({
            let m = complete_task_result(l, caller, pos)->Ok_0;
            &&& m.tasks[pos as int].completed
            &&& complete_task_result(m, caller, pos) == Err::<TaskListView, TaskManagerError>(
                TaskManagerError::TaskAlreadyCompleted,
            )
        }),
{
}

/// Deleting position `pos` removes exactly that task: the tasks before it
/// keep their positions, those after it move down by one, and the owner and
/// the counter are unchanged.
pub proof fn lemma_delete_shifts(l: TaskListView, caller: Seq<u8>, pos: nat)
    requires
        delete_task_result(l, caller, pos) is Ok,
    ensures
        ({
            let m = delete_task_result(l, caller, pos)->Ok_0;
            &&& m.tasks.len() == l.tasks.len() - 1
            &&& forall|i: int| 0 <= i < pos ==> #[trigger] m.tasks[i] == l.tasks[i]
            &&& forall|i: int| pos <= i < m.tasks.len() ==> #[trigger] m.tasks[i] == l.tasks[i + 1]
            &&& m.task_count == l.task_count
            &&& m.owner == l.owner
        }),
{
}

/// Every operation asked for by anyone but the owner fails with
/// `Unauthorized` and leaves the list as it was.
pub proof fn lemma_non_owner_rejected(
    l: TaskListView,
    caller: Seq<u8>,
    d: Seq<char>,
    pos: nat,
    r: Result<(), TaskManagerError>,
    after: TaskListView,
)
    requires
        caller != l.owner,
    ensures
        matches_outcome(r, l, after, add_task_result(l, caller, d)) ==> r == Err::<
            (),
            TaskManagerError,
        >(TaskManagerError::Unauthorized) && after == l,
        matches_outcome(r, l, after, complete_task_result(l, caller, pos)) ==> r == Err::<
            (),
            TaskManagerError,
        >(TaskManagerError::Unauthorized) && after == l,
        matches_outcome(r, l, after, delete_task_result(l, caller, pos)) ==> r == Err::<
            (),
            TaskManagerError,
        >(TaskManagerError::Unauthorized) && after == l,
{
}

} // verus!
