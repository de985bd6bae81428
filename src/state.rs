use vstd::prelude::*;
use vstd::utf8::encode_utf8;

verus! {

/// Number of bytes in an account identity.
pub const IDENTITY_LEN: usize = 32;

/// The most tasks a list may hold at one time.
pub const MAX_TASKS: usize = 40;

/// The longest description a task may have, in UTF-8 bytes.
pub const MAX_DESCRIPTION_LEN: usize = 200;

/// Bytes reserved for a stored list: an 8-byte record tag, the owner, the
/// 64-bit counter, the 4-byte length of the task sequence, and room for the
/// largest number of tasks, each with a 64-bit id, a 4-byte length prefix and
/// the longest description, and a 1-byte completion flag.
pub const TASK_LIST_SPACE: usize = 8 + IDENTITY_LEN + 8 + 4 + MAX_TASKS * (8 + 4
    + MAX_DESCRIPTION_LEN + 1);

/// The identity of an account: 32 raw bytes, compared byte for byte.
#[derive(Clone, Copy, Debug)]
pub struct Identity {
    pub bytes: [u8; 32],
}

impl View for Identity {
    type V = Seq<u8>;

    open spec fn view(&self) -> Seq<u8> {
        self.bytes@
    }
}

impl Identity {
    /// Wraps the given bytes as an identity.
    pub fn new(bytes: [u8; 32]) -> (r: Identity)
        ensures
            r@ == bytes@,
    {
        Identity { bytes }
    }

    /// The bytes of this identity.
    pub fn to_bytes(&self) -> (r: [u8; 32])
        ensures
            r@ == self@,
    {
        self.bytes
    }
}

impl PartialEq for Identity {
    fn eq(&self, other: &Identity) -> (r: bool) {
        let mut i: usize = 0;
        while i < IDENTITY_LEN
            invariant
                0 <= i <= IDENTITY_LEN,
                self.bytes@.len() == IDENTITY_LEN,
                other.bytes@.len() == IDENTITY_LEN,
                forall|j: int| 0 <= j < i ==> self.bytes@[j] == other.bytes@[j],
            decreases IDENTITY_LEN - i,
        {
            if self.bytes[i] != other.bytes[i] {
                return false;
            }
            i = i + 1;
        }
        proof {
            assert(self.bytes@ =~= other.bytes@);
        }
        true
    }
}

impl vstd::std_specs::cmp::PartialEqSpecImpl for Identity {
    open spec fn obeys_eq_spec() -> bool {
        true
    }

    open spec fn eq_spec(&self, other: &Identity) -> bool {
        self@ == other@
    }
}

/// One task of a list.
#[derive(Clone, Debug)]
pub struct Task {
    /// Assigned from the list's counter when the task was added; never reused.
    pub id: u64,
    pub description: String,
    pub completed: bool,
}

/// What a task is, as plain values.
pub struct TaskView {
    pub id: nat,
    pub description: Seq<char>,
    pub completed: bool,
}

impl View for Task {
    type V = TaskView;

    open spec fn view(&self) -> TaskView {
        TaskView { id: self.id as nat, description: self.description@, completed: self.completed }
    }
}

/// The task list of one owner.
#[derive(Clone, Debug)]
pub struct TaskList {
    /// The only identity allowed to change the list.
    pub owner: Identity,
    /// How many tasks were ever added: the id of the next task.
    pub task_count: u64,
    /// The tasks, in the order they were added.
    pub tasks: Vec<Task>,
}

/// What a task list is, as plain values.
pub struct TaskListView {
    pub owner: Seq<u8>,
    pub task_count: nat,
    pub tasks: Seq<TaskView>,
}

impl View for TaskList {
    type V = TaskListView;

    open spec fn view(&self) -> TaskListView {
        TaskListView {
            owner: self.owner@,
            task_count: self.task_count as nat,
            tasks: self.tasks@.map_values(|t: Task| t@),
        }
    }
}

/// Length of a description in UTF-8 bytes.
pub open spec fn description_len(d: Seq<char>) -> nat {
    encode_utf8(d).len()
}

impl TaskListView {
    /// The list's invariant: at most `MAX_TASKS` tasks, each description at
    /// most `MAX_DESCRIPTION_LEN` bytes, ids below the counter and unique.
    pub open spec fn wf(self) -> bool {
        &&& self.tasks.len() <= MAX_TASKS
        &&& forall|i: int|
            0 <= i < self.tasks.len() ==> {
                &&& description_len(#[trigger] self.tasks[i].description) <= MAX_DESCRIPTION_LEN
                &&& self.tasks[i].id < self.task_count
            }
        &&& forall|i: int, j: int|
            0 <= i < self.tasks.len() && 0 <= j < self.tasks.len() && i != j
                ==> #[trigger] self.tasks[i].id != #[trigger] self.tasks[j].id
    }
}

} // verus!
