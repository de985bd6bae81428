//! A per-owner task list: a bounded list of tasks that only its owner may
//! change, with operations to initialize the list and to add, complete and
//! delete tasks.
//!
//! `state` holds the data and its view as plain values, `model` what each
//! operation does to that view, `instructions` the operations themselves, and
//! `laws` the properties proved of them.
pub mod error;
pub mod instructions;
pub mod laws;
pub mod model;
pub mod state;

pub use error::TaskManagerError;
pub use instructions::{
    add_task, complete_task, delete_task, initialize, AddTask, CompleteTask, DeleteTask, Initialize,
};
pub use state::{
    Identity, Task, TaskList, IDENTITY_LEN, MAX_DESCRIPTION_LEN, MAX_TASKS, TASK_LIST_SPACE,
};
