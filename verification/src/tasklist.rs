//! The task-list manager: to-do items with identifiers, kept sorted by
//! the order they were added. Reading input and printing tables is the
//! caller's business; here the records and the rules over them live.

use vstd::prelude::*;

verus! {

/// Where a to-do item stands.
#[derive(Clone, Copy, Debug, PartialEq, Eq, Structural)]
pub enum TodoStatus {
    Todo,
    InProgress,
    Done,
}

impl TodoStatus {
    /// The status's name for display.
    pub fn label(&self) -> (r: &'static str)
        ensures
            *self == TodoStatus::Todo ==> r@ == "todo"@,
            *self == TodoStatus::InProgress ==> r@ == "in progress"@,
            *self == TodoStatus::Done ==> r@ == "done"@,
    {
        match self {
            TodoStatus::Todo => "todo",
            TodoStatus::InProgress => "in progress",
            TodoStatus::Done => "done",
        }
    }
}

/// One to-do item.
#[derive(Clone, Debug)]
pub struct Task {
    pub title: String,
    pub description: String,
    pub status: TodoStatus,
    pub created_at: u64,
    pub updated_at: u64,
}

impl Task {
    /// A new item, starting as `Todo`, stamped with the present time.
    pub fn new(title: String, description: String, now: u64) -> (r: Task)
        ensures
            r.title@ == title@,
            r.description@ == description@,
            r.status == TodoStatus::Todo,
            r.created_at == now,
            r.updated_at == now,
    {
        Task { title, description, status: TodoStatus::Todo, created_at: now, updated_at: now }
    }

    /// Moves the item to `status` and restamps its update time.
    pub fn update_status(&mut self, status: TodoStatus, now: u64)
        ensures
            final(self).status == status,
            final(self).updated_at == now,
            final(self).title == old(self).title,
            final(self).description == old(self).description,
            final(self).created_at == old(self).created_at,
    {
        self.status = status;
        self.updated_at = now;
    }

    /// A field-for-field copy of the item.
    pub fn duplicate(&self) -> (r: Task)
        ensures
            r == *self,
    {
        Task {
            title: self.title.clone(),
            description: self.description.clone(),
            status: self.status,
            created_at: self.created_at,
            updated_at: self.updated_at,
        }
    }
}

/// Manages to-do items under identifiers it issues in order, starting
/// from one.
pub struct TaskManager {
    tasks: Vec<(usize, Task)>,
    next_id: usize,
}

/// Whether some entry of `s` carries identifier `id`.
pub open spec fn has_entry(s: Seq<(usize, Task)>, id: usize) -> bool {
    exists|i: int| 0 <= i < s.len() && (#[trigger] s[i]).0 == id
}

/// The index of the entry with identifier `id`.
pub open spec fn entry_at(s: Seq<(usize, Task)>, id: usize) -> int {
    choose|i: int| 0 <= i < s.len() && (#[trigger] s[i]).0 == id
}

impl TaskManager {
    /// The stored entries, in the order their identifiers were issued.
    pub closed spec fn entries(self) -> Seq<(usize, Task)> {
        self.tasks@
    }

    /// The identifier the next added task will get.
    pub closed spec fn upcoming_id(self) -> usize {
        self.next_id
    }

    /// Identifiers grow strictly in insertion order and stay below the
    /// counter, which started at one.
    pub open spec fn wf(self) -> bool {
        &&& forall|i: int, j: int|
            0 <= i < j < self.entries().len() ==> (#[trigger] self.entries()[i]).0 < (
            #[trigger] self.entries()[j]).0
        &&& forall|i: int|
            0 <= i < self.entries().len() ==> 1 <= (#[trigger] self.entries()[i]).0
                < self.upcoming_id()
        &&& self.upcoming_id() >= 1
    }

    /// An empty manager; the first task will get identifier one.
    pub fn new() -> (r: TaskManager)
        ensures
            r.wf(),
            r.entries().len() == 0,
            r.upcoming_id() == 1,
    {
        TaskManager { tasks: Vec::new(), next_id: 1 }
    }

    /// Stores `task` under a fresh identifier and returns it.
    pub fn add_task(&mut self, task: Task) -> (r: usize)
        requires
            old(self).wf(),
            old(self).upcoming_id() < usize::MAX,
        ensures
            final(self).wf(),
            r == old(self).upcoming_id(),
            final(self).entries() == old(self).entries().push((r, task)),
            final(self).upcoming_id() == old(self).upcoming_id() + 1,
    {
        let id = self.next_id;
        self.tasks.push((id, task));
        self.next_id = self.next_id + 1;
        proof {
            assert forall|i: int, j: int|
                0 <= i < j < self.entries().len() implies (#[trigger] self.entries()[i]).0 < (
            #[trigger] self.entries()[j]).0 by {
                if j < self.entries().len() - 1 {
                    assert(self.entries()[i] == old(self).entries()[i]);
                    assert(self.entries()[j] == old(self).entries()[j]);
                } else {
                    assert(self.entries()[i] == old(self).entries()[i]);
                    assert(self.entries()[j].0 == id);
                }
            }
            assert forall|i: int|
                0 <= i < self.entries().len() implies 1 <= (#[trigger] self.entries()[i]).0
                < self.upcoming_id() by {
                if i < self.entries().len() - 1 {
                    assert(self.entries()[i] == old(self).entries()[i]);
                } else {
                    assert(self.entries()[i].0 == id);
                }
            }
        }
        id
    }

    /// The index of the entry under `id`, if one is stored.
    fn find_entry(&self, id: usize) -> (r: Option<usize>)
        requires
            self.wf(),
        ensures
            match r {
                Some(i) => i < self.entries().len() && self.entries()[i as int].0 == id
                    && has_entry(self.entries(), id) && entry_at(self.entries(), id) == i,
                None => !has_entry(self.entries(), id),
            },
    {
        let n = self.tasks.len();
        let mut i: usize = 0;
        while i < n
            invariant
                0 <= i <= n,
                n == self.entries().len(),
                self.wf(),
                forall|j: int| 0 <= j < i ==> (#[trigger] self.entries()[j]).0 != id,
            decreases n - i,
        {
            if self.tasks[i].0 == id {
                return Some(i);
            }
            i = i + 1;
        }
        None
    }

    /// The item stored under `id`, if any.
    pub fn view_task(&self, id: usize) -> (r: Option<Task>)
        requires
            self.wf(),
        ensures
            has_entry(self.entries(), id) ==> r == Some(
                self.entries()[entry_at(self.entries(), id)].1,
            ),
            !has_entry(self.entries(), id) ==> r is None,
    {
        match self.find_entry(id) {
            Some(i) => Some(self.tasks[i].1.duplicate()),
            None => None,
        }
    }

    /// Every entry in identifier order, ready for listing.
    pub fn list_tasks(&self) -> (r: Vec<(usize, Task)>)
        ensures
            r@ == self.entries(),
    {
        let n = self.tasks.len();
        let mut out: Vec<(usize, Task)> = Vec::new();
        let mut i: usize = 0;
        while i < n
            invariant
                0 <= i <= n,
                n == self.entries().len(),
                out@ == self.entries().subrange(0, i as int),
            decreases n - i,
        {
            let pair = (self.tasks[i].0, self.tasks[i].1.duplicate());
            proof {
                assert(pair == self.entries()[i as int]);
            }
            out.push(pair);
            proof {
                assert(out@ =~= self.entries().subrange(0, i + 1));
            }
            i = i + 1;
        }
        proof {
            assert(self.entries().subrange(0, n as int) =~= self.entries());
        }
        out
    }

    /// Moves the item under `id` to `status`; answers whether one was
    /// there.
    pub fn update_task_status(&mut self, id: usize, status: TodoStatus, now: u64) -> (r: bool)
        requires
            old(self).wf(),
        ensures
            final(self).wf(),
            final(self).upcoming_id() == old(self).upcoming_id(),
            r == has_entry(old(self).entries(), id),
            r ==> {
                let i = entry_at(old(self).entries(), id);
                final(self).entries() == old(self).entries().update(
                    i,
                    (
                        id,
                        Task {
                            status: status,
                            updated_at: now,
                            ..old(self).entries()[i].1
                        },
                    ),
                )
            },
            !r ==> final(self).entries() == old(self).entries(),
    {
        match self.find_entry(id) {
            Some(i) => {
                let mut task = self.tasks[i].1.duplicate();
                task.update_status(status, now);
                self.tasks[i] = (id, task);
                proof {
                    lemma_update_keeps_order(old(self).entries(), self.entries(), i as int);
                }
                true
            },
            None => false,
        }
    }

    /// Removes the item under `id`; answers whether one was there.
    pub fn delete_task(&mut self, id: usize) -> (r: bool)
        requires
            old(self).wf(),
        ensures
            final(self).wf(),
            final(self).upcoming_id() == old(self).upcoming_id(),
            r == has_entry(old(self).entries(), id),
            r ==> final(self).entries() == old(self).entries().remove(
                entry_at(old(self).entries(), id),
            ),
            !r ==> final(self).entries() == old(self).entries(),
    {
        match self.find_entry(id) {
            Some(i) => {
                self.tasks.remove(i);
                proof {
                    lemma_remove_keeps_order(old(self).entries(), i as int);
                }
                true
            },
            None => false,
        }
    }

    /// How many items are stored.
    pub fn count(&self) -> (r: usize)
        ensures
            r == self.entries().len(),
    {
        self.tasks.len()
    }
}

/// Replacing one entry without touching its identifier keeps the order.
proof fn lemma_update_keeps_order(pre: Seq<(usize, Task)>, post: Seq<(usize, Task)>, k: int)
    requires
        0 <= k < pre.len(),
        post.len() == pre.len(),
        post[k].0 == pre[k].0,
        forall|i: int| 0 <= i < pre.len() && i != k ==> post[i] == pre[i],
        forall|i: int, j: int|
            0 <= i < j < pre.len() ==> (#[trigger] pre[i]).0 < (#[trigger] pre[j]).0,
    ensures
        forall|i: int, j: int|
            0 <= i < j < post.len() ==> (#[trigger] post[i]).0 < (#[trigger] post[j]).0,
{
    assert forall|i: int, j: int|
        0 <= i < j < post.len() implies (#[trigger] post[i]).0 < (#[trigger] post[j]).0 by {
        assert(pre[i].0 < pre[j].0);
    }
}

/// Removing one entry keeps the rest in order.
proof fn lemma_remove_keeps_order(pre: Seq<(usize, Task)>, k: int)
    requires
        0 <= k < pre.len(),
        forall|i: int, j: int|
            0 <= i < j < pre.len() ==> (#[trigger] pre[i]).0 < (#[trigger] pre[j]).0,
    ensures
        forall|i: int, j: int|
            0 <= i < j < pre.remove(k).len() ==> (#[trigger] pre.remove(k)[i]).0 < (
            #[trigger] pre.remove(k)[j]).0,
{
    let post = pre.remove(k);
    assert forall|i: int, j: int|
        0 <= i < j < post.len() implies (#[trigger] post[i]).0 < (#[trigger] post[j]).0 by {
        let pi: int = if i < k {
            i
        } else {
            i + 1
        };
        let pj: int = if j < k {
            j
        } else {
            j + 1
        };
        assert(post[i] == pre[pi] && post[j] == pre[pj]);
        assert(pre[pi].0 < pre[pj].0);
    }
}

/// The command-line face of the task list; it owns no state and only
/// builds the fixed texts the caller prints.
pub struct CliInterface;

impl CliInterface {
    /// A fresh interface.
    pub fn new() -> CliInterface {
        CliInterface
    }

    /// The main menu, one line per choice.
    pub fn menu_lines(&self) -> (r: Vec<&'static str>)
        ensures
            r@.len() == 6,
            r@[0]@ == "1. add a task"@,
            r@[1]@ == "2. list all tasks"@,
            r@[2]@ == "3. update a task's status"@,
            r@[3]@ == "4. delete a task"@,
            r@[4]@ == "5. view a task"@,
            r@[5]@ == "q. quit"@,
    {
        let mut v: Vec<&'static str> = Vec::new();
        v.push("1. add a task");
        v.push("2. list all tasks");
        v.push("3. update a task's status");
        v.push("4. delete a task");
        v.push("5. view a task");
        v.push("q. quit");
        v
    }

    /// The status choices, one line per option.
    pub fn status_option_lines(&self) -> (r: Vec<&'static str>)
        ensures
            r@.len() == 3,
            r@[0]@ == "1. todo"@,
            r@[1]@ == "2. in progress"@,
            r@[2]@ == "3. done"@,
    {
        let mut v: Vec<&'static str> = Vec::new();
        v.push("1. todo");
        v.push("2. in progress");
        v.push("3. done");
        v
    }
}

} // verus!
