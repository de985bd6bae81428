use task_manager::{
    add_task, complete_task, delete_task, initialize, AddTask, CompleteTask, DeleteTask, Identity,
    Initialize, TaskList, TaskManagerError, MAX_DESCRIPTION_LEN, MAX_TASKS, TASK_LIST_SPACE,
};

fn identity(b: u8) -> Identity {
    Identity::new([b; 32])
}

fn new_list(owner: Identity) -> TaskList {
    initialize(&Initialize { user: owner })
}

fn add(list: TaskList, user: Identity, d: &str) -> (TaskList, Result<(), TaskManagerError>) {
    let mut ctx = AddTask { task_list: list, user };
    let r = add_task(&mut ctx, d.to_string());
    (ctx.task_list, r)
}

fn complete(list: TaskList, user: Identity, pos: u64) -> (TaskList, Result<(), TaskManagerError>) {
    let mut ctx = CompleteTask { task_list: list, user };
    let r = complete_task(&mut ctx, pos);
    (ctx.task_list, r)
}

fn delete(list: TaskList, user: Identity, pos: u64) -> (TaskList, Result<(), TaskManagerError>) {
    let mut ctx = DeleteTask { task_list: list, user };
    let r = delete_task(&mut ctx, pos);
    (ctx.task_list, r)
}

fn same(a: &TaskList, b: &TaskList) -> bool {
    a.owner == b.owner
        && a.task_count == b.task_count
        && a.tasks.len() == b.tasks.len()
        && a.tasks.iter().zip(b.tasks.iter()).all(|(x, y)| {
            x.id == y.id && x.description == y.description && x.completed == y.completed
        })
}

fn full_list(owner: Identity) -> TaskList {
    let mut list = new_list(owner);
    for i in 0..MAX_TASKS {
        let (l, r) = add(list, owner, &format!("task {}", i));
        assert_eq!(r, Ok(()));
        list = l;
    }
    list
}

#[test]
fn initialize_gives_empty_list() {
    let a = identity(1);
    let list = new_list(a);
    assert!(list.owner == a);
    assert_eq!(list.task_count, 0);
    assert!(list.tasks.is_empty());
}

#[test]
fn adds_count_up_to_capacity() {
    let a = identity(1);
    let mut list = new_list(a);
    for n in 1..=MAX_TASKS {
        let (l, r) = add(list, a, "x");
        assert_eq!(r, Ok(()));
        assert_eq!(l.tasks.len(), n);
        assert_eq!(l.task_count, n as u64);
        assert_eq!(l.tasks[n - 1].id, (n - 1) as u64);
        list = l;
    }
}

#[test]
fn add_to_full_list_fails() {
    let a = identity(1);
    let list = full_list(a);
    let before = list.clone();
    let (after, r) = add(list, a, "one more");
    assert_eq!(r, Err(TaskManagerError::TooManyTasks));
    assert!(same(&before, &after));
    assert_eq!(after.tasks.len(), 40);
}

#[test]
fn description_of_201_bytes_is_too_long() {
    let a = identity(1);
    let (list, r) = add(new_list(a), a, &"a".repeat(201));
    assert_eq!(r, Err(TaskManagerError::DescriptionTooLong));
    assert!(list.tasks.is_empty());
    assert_eq!(list.task_count, 0);
}

#[test]
fn description_of_200_bytes_is_accepted() {
    let a = identity(1);
    let d = "a".repeat(MAX_DESCRIPTION_LEN);
    let (list, r) = add(new_list(a), a, &d);
    assert_eq!(r, Ok(()));
    assert_eq!(list.tasks[0].description, d);
}

#[test]
fn description_length_counts_bytes() {
    let a = identity(1);
    let two_byte = "\u{e9}".repeat(100);
    assert_eq!(two_byte.len(), 200);
    let (list, r) = add(new_list(a), a, &two_byte);
    assert_eq!(r, Ok(()));
    let (list, r) = add(list, a, &format!("{}a", two_byte));
    assert_eq!(r, Err(TaskManagerError::DescriptionTooLong));
    assert_eq!(list.tasks.len(), 1);
}

#[test]
fn empty_description_is_accepted() {
    let a = identity(1);
    let (list, r) = add(new_list(a), a, "");
    assert_eq!(r, Ok(()));
    assert_eq!(list.tasks[0].description, "");
}

#[test]
fn description_check_comes_before_capacity_check() {
    let a = identity(1);
    let (_, r) = add(full_list(a), a, &"a".repeat(201));
    assert_eq!(r, Err(TaskManagerError::DescriptionTooLong));
}

#[test]
fn complete_twice_fails_second_time() {
    let a = identity(1);
    let (list, _) = add(new_list(a), a, "buy milk");
    let (list, r) = complete(list, a, 0);
    assert_eq!(r, Ok(()));
    assert!(list.tasks[0].completed);
    let before = list.clone();
    let (list, r) = complete(list, a, 0);
    assert_eq!(r, Err(TaskManagerError::TaskAlreadyCompleted));
    assert!(same(&before, &list));
}

#[test]
fn complete_out_of_range_is_not_found() {
    let a = identity(1);
    let (list, _) = add(new_list(a), a, "buy milk");
    let (list, r) = complete(list, a, 1);
    assert_eq!(r, Err(TaskManagerError::TaskNotFound));
    let (_, r) = complete(list, a, u64::MAX);
    assert_eq!(r, Err(TaskManagerError::TaskNotFound));
}

#[test]
fn delete_shifts_later_tasks_down() {
    let a = identity(1);
    let mut list = new_list(a);
    for d in ["t0", "t1", "t2", "t3"] {
        list = add(list, a, d).0;
    }
    let (list, r) = delete(list, a, 1);
    assert_eq!(r, Ok(()));
    assert_eq!(list.task_count, 4);
    let ids: Vec<u64> = list.tasks.iter().map(|t| t.id).collect();
    assert_eq!(ids, vec![0, 2, 3]);
    let ds: Vec<&str> = list.tasks.iter().map(|t| t.description.as_str()).collect();
    assert_eq!(ds, vec!["t0", "t2", "t3"]);
}

#[test]
fn delete_out_of_range_is_not_found() {
    let a = identity(1);
    let (list, r) = delete(new_list(a), a, 0);
    assert_eq!(r, Err(TaskManagerError::TaskNotFound));
    assert!(list.tasks.is_empty());
}

#[test]
fn ids_are_not_reused_after_delete() {
    let a = identity(1);
    let (list, _) = add(new_list(a), a, "first");
    let (list, _) = delete(list, a, 0);
    let (list, r) = add(list, a, "second");
    assert_eq!(r, Ok(()));
    assert_eq!(list.tasks[0].id, 1);
    assert_eq!(list.task_count, 2);
}

#[test]
fn non_owner_is_rejected_everywhere() {
    let a = identity(1);
    let b = identity(2);
    let (list, _) = add(new_list(a), a, "buy milk");
    let before = list.clone();
    let (list, r) = add(list, b, "x");
    assert_eq!(r, Err(TaskManagerError::Unauthorized));
    assert!(same(&before, &list));
    let (list, r) = complete(list, b, 0);
    assert_eq!(r, Err(TaskManagerError::Unauthorized));
    assert!(same(&before, &list));
    let (list, r) = delete(list, b, 0);
    assert_eq!(r, Err(TaskManagerError::Unauthorized));
    assert!(same(&before, &list));
}

#[test]
fn owner_check_comes_first() {
    let a = identity(1);
    let b = identity(2);
    let (_, r) = add(full_list(a), b, &"a".repeat(201));
    assert_eq!(r, Err(TaskManagerError::Unauthorized));
    let (_, r) = delete(new_list(a), b, 5);
    assert_eq!(r, Err(TaskManagerError::Unauthorized));
}

#[test]
fn identities_differing_in_one_byte_differ() {
    let mut bytes = [7u8; 32];
    let a = Identity::new(bytes);
    bytes[31] = 8;
    let b = Identity::new(bytes);
    assert!(a != b);
    assert!(a == Identity::new([7u8; 32]));
    assert_eq!(b.to_bytes(), bytes);
}

#[test]
fn scenario_add_complete_delete() {
    let a = identity(0xA);
    let list = new_list(a);
    let (list, r) = add(list, a, "buy milk");
    assert_eq!(r, Ok(()));
    let (list, r) = add(list, a, "walk dog");
    assert_eq!(r, Ok(()));
    let (list, r) = complete(list, a, 0);
    assert_eq!(r, Ok(()));
    let (list, r) = delete(list, a, 0);
    assert_eq!(r, Ok(()));
    assert_eq!(list.tasks.len(), 1);
    assert_eq!(list.tasks[0].id, 1);
    assert_eq!(list.tasks[0].description, "walk dog");
    assert!(!list.tasks[0].completed);
    assert_eq!(list.task_count, 2);
}

#[test]
fn scenario_non_owner_add() {
    let a = identity(0xA);
    let b = identity(0xB);
    let list = new_list(a);
    let before = list.clone();
    let (list, r) = add(list, b, "sneaky");
    assert_eq!(r, Err(TaskManagerError::Unauthorized));
    assert!(same(&before, &list));
}

#[test]
fn error_messages() {
    assert_eq!(
        TaskManagerError::DescriptionTooLong.message(),
        "Description is too long. Maximum 200 characters."
    );
    assert_eq!(TaskManagerError::TooManyTasks.message(), "Maximum number of tasks (40) reached.");
    assert_eq!(TaskManagerError::TaskNotFound.message(), "Task not found.");
    assert_eq!(TaskManagerError::TaskAlreadyCompleted.message(), "Task is already completed.");
    assert_eq!(
        TaskManagerError::Unauthorized.message(),
        "Unauthorized: Only the owner can perform this action."
    );
}

#[test]
fn reserved_space_holds_a_full_list() {
    assert_eq!(TASK_LIST_SPACE, 8 + 32 + 8 + 4 + 40 * (8 + 4 + 200 + 1));
    assert_eq!(TASK_LIST_SPACE, 8572);
}
