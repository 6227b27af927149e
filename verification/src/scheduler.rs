//! Task scheduling: a registry that issues unique, strictly increasing task
//! identifiers and tracks each task through its lifecycle, and an ordered
//! task queue with optional capacity and priority-ordered removal.
//!
//! The registry is the decision core of a scheduler: registering creates a
//! `Pending` record and returns its identifier at once; the caller's
//! executor reports back when a task starts running and when it completes.
//! Callers supply the current time.

use vstd::prelude::*;

use crate::errors::ResourceError;

verus! {

/// How urgent a task is.
#[derive(Clone, Copy, Debug, PartialEq, Eq, Structural)]
pub enum TaskPriority {
    Low,
    Normal,
    High,
    Critical,
}

impl TaskPriority {
    /// The numeric rank of the priority; higher is more urgent.
    pub open spec fn spec_rank(self) -> nat {
        match self {
            TaskPriority::Low => 1,
            TaskPriority::Normal => 2,
            TaskPriority::High => 3,
            TaskPriority::Critical => 4,
        }
    }

    /// The numeric rank of the priority; higher is more urgent.
    pub fn rank(&self) -> (r: u8)
        ensures
            r == self.spec_rank(),
    {
        match self {
            TaskPriority::Low => 1,
            TaskPriority::Normal => 2,
            TaskPriority::High => 3,
            TaskPriority::Critical => 4,
        }
    }
}

/// Where a task stands in its lifecycle.
#[derive(Clone, Copy, Debug, PartialEq, Eq, Structural)]
pub enum TaskStatus {
    Pending,
    Running,
    Completed,
    Failed,
    Cancelled,
}

/// The record the scheduler keeps of one task.
#[derive(Clone, Debug)]
pub struct TaskInfo {
    pub id: u64,
    pub name: String,
    pub priority: TaskPriority,
    pub status: TaskStatus,
    pub created_at: u64,
    pub started_at: Option<u64>,
    pub completed_at: Option<u64>,
}

impl TaskInfo {
    /// A field-for-field copy of the record.
    pub fn duplicate(&self) -> (r: TaskInfo)
        ensures
            r == *self,
    {
        TaskInfo {
            id: self.id,
            name: self.name.clone(),
            priority: self.priority,
            status: self.status,
            created_at: self.created_at,
            started_at: self.started_at,
            completed_at: self.completed_at,
        }
    }
}

/// How many tasks of `s` are currently running.
pub open spec fn count_running(s: Seq<TaskInfo>) -> nat
    decreases s.len(),
{
    if s.len() == 0 {
        0
    } else {
        count_running(s.drop_last()) + if s.last().status is Running {
            1nat
        } else {
            0nat
        }
    }
}

/// The tasks of `s` with priority `p`, in registration order.
pub open spec fn tasks_with_priority(s: Seq<TaskInfo>, p: TaskPriority) -> Seq<TaskInfo>
    decreases s.len(),
{
    if s.len() == 0 {
        Seq::empty()
    } else {
        let rest = tasks_with_priority(s.drop_last(), p);
        if s.last().priority == p {
            rest.push(s.last())
        } else {
            rest
        }
    }
}

/// The mathematical content of the scheduler's registry.
#[verifier::ext_equal]
pub ghost struct SchedulerView {
    pub tasks: Seq<TaskInfo>,
    pub next_id: u64,
}

impl SchedulerView {
    /// Identifiers grow strictly in registration order and stay below the
    /// counter.
    pub open spec fn wf(self) -> bool {
        &&& forall|i: int, j: int|
            0 <= i < j < self.tasks.len() ==> (#[trigger] self.tasks[i]).id < (
            #[trigger] self.tasks[j]).id
        &&& forall|i: int| 0 <= i < self.tasks.len() ==> (#[trigger] self.tasks[i]).id < self.next_id
    }

    pub open spec fn has_task(self, id: u64) -> bool {
        exists|i: int| 0 <= i < self.tasks.len() && (#[trigger] self.tasks[i]).id == id
    }

    /// The index of the task with identifier `id`; under `wf` unique.
    pub open spec fn task_at(self, id: u64) -> int {
        choose|i: int| 0 <= i < self.tasks.len() && (#[trigger] self.tasks[i]).id == id
    }

    pub open spec fn lookup(self, id: u64) -> Option<TaskInfo> {
        if self.has_task(id) {
            Some(self.tasks[self.task_at(id)])
        } else {
            None
        }
    }

    /// What registering a task does: a `Pending` record under the next
    /// identifier is appended and the counter moves on.
    pub open spec fn spec_register(
        self,
        name: String,
        priority: TaskPriority,
        now: u64,
    ) -> (SchedulerView, u64) {
        (
            SchedulerView {
                tasks: self.tasks.push(
                    TaskInfo {
                        id: self.next_id,
                        name: name,
                        priority: priority,
                        status: TaskStatus::Pending,
                        created_at: now,
                        started_at: None,
                        completed_at: None,
                    },
                ),
                next_id: (self.next_id + 1) as u64,
            },
            self.next_id,
        )
    }
}

/// The registry half of a task scheduler: it issues identifiers and tracks
/// lifecycle state; running the work is the caller's business.
pub struct TaskScheduler {
    tasks: Vec<TaskInfo>,
    next_id: u64,
}

impl View for TaskScheduler {
    type V = SchedulerView;

    closed spec fn view(&self) -> SchedulerView {
        SchedulerView { tasks: self.tasks@, next_id: self.next_id }
    }
}

impl TaskScheduler {
    /// A scheduler that has issued no identifiers yet.
    pub fn new() -> (r: TaskScheduler)
        ensures
            r@.wf(),
            r@.tasks.len() == 0,
            r@.next_id == 0,
    {
        TaskScheduler { tasks: Vec::new(), next_id: 0 }
    }

    /// The index of the task with identifier `id`, if one is registered.
    fn find_task(&self, id: u64) -> (r: Option<usize>)
        requires
            self@.wf(),
        ensures
            match r {
                Some(i) => i < self@.tasks.len() && self@.tasks[i as int].id == id
                    && self@.has_task(id) && self@.task_at(id) == i,
                None => !self@.has_task(id),
            },
    {
        let n = self.tasks.len();
        let mut i: usize = 0;
        while i < n
            invariant
                0 <= i <= n,
                n == self@.tasks.len(),
                self@.wf(),
                forall|j: int| 0 <= j < i ==> (#[trigger] self@.tasks[j]).id != id,
            decreases n - i,
        {
            if self.tasks[i].id == id {
                return Some(i);
            }
            i = i + 1;
        }
        None
    }

    /// Registers a task: a `Pending` record is created and its fresh
    /// identifier — larger than every identifier issued before — returned
    /// at once. Registration never blocks on the task being run.
    pub fn register_task(&mut self, name: String, priority: TaskPriority, now: u64) -> (r: u64)
        requires
            old(self)@.wf(),
            old(self)@.next_id < u64::MAX,
        ensures
            final(self)@.wf(),
            (final(self)@, r) == old(self)@.spec_register(name, priority, now),
            forall|i: int|
                0 <= i < old(self)@.tasks.len() ==> r > (#[trigger] old(self)@.tasks[i]).id,
    {
        let ghost gname = name;
        let id = self.next_id;
        self.tasks.push(
            TaskInfo {
                id,
                name,
                priority,
                status: TaskStatus::Pending,
                created_at: now,
                started_at: None,
                completed_at: None,
            },
        );
        self.next_id = self.next_id + 1;
        proof {
            assert(self@ =~= old(self)@.spec_register(gname, priority, now).0);
        }
        id
    }

    /// Records that the task with identifier `id`, until now `Pending`,
    /// has started running at time `now`. Answers whether it did: a task
    /// that is unknown or not `Pending` is left alone.
    pub fn mark_running(&mut self, id: u64, now: u64) -> (r: bool)
        requires
            old(self)@.wf(),
        ensures
            final(self)@.wf(),
            r <==> (old(self)@.lookup(id) matches Some(t) && t.status is Pending),
            r ==> {
                let i = old(self)@.task_at(id);
                final(self)@.tasks == old(self)@.tasks.update(
                    i,
                    TaskInfo {
                        status: TaskStatus::Running,
                        started_at: Some(now),
                        ..old(self)@.tasks[i]
                    },
                ) && final(self)@.next_id == old(self)@.next_id
            },
            !r ==> final(self)@ == old(self)@,
    {
        match self.find_task(id) {
            Some(i) => {
                let pending = match self.tasks[i].status {
                    TaskStatus::Pending => true,
                    _ => false,
                };
                if pending {
                    let t = self.tasks[i].duplicate();
                    self.tasks[i] = TaskInfo {
                        id: t.id,
                        name: t.name,
                        priority: t.priority,
                        status: TaskStatus::Running,
                        created_at: t.created_at,
                        started_at: Some(now),
                        completed_at: t.completed_at,
                    };
                    proof {
                        lemma_ids_kept_by_update(old(self)@, self@, i as int);
                    }
                    true
                } else {
                    false
                }
            },
            None => false,
        }
    }

    /// Records that the task with identifier `id`, until now `Running`,
    /// has completed at time `now`. Answers whether it did: a task that is
    /// unknown or not `Running` is left alone.
    pub fn mark_completed(&mut self, id: u64, now: u64) -> (r: bool)
        requires
            old(self)@.wf(),
        ensures
            final(self)@.wf(),
            r <==> (old(self)@.lookup(id) matches Some(t) && t.status is Running),
            r ==> {
                let i = old(self)@.task_at(id);
                final(self)@.tasks == old(self)@.tasks.update(
                    i,
                    TaskInfo {
                        status: TaskStatus::Completed,
                        completed_at: Some(now),
                        ..old(self)@.tasks[i]
                    },
                ) && final(self)@.next_id == old(self)@.next_id
            },
            !r ==> final(self)@ == old(self)@,
    {
        match self.find_task(id) {
            Some(i) => {
                let running = match self.tasks[i].status {
                    TaskStatus::Running => true,
                    _ => false,
                };
                if running {
                    let t = self.tasks[i].duplicate();
                    self.tasks[i] = TaskInfo {
                        id: t.id,
                        name: t.name,
                        priority: t.priority,
                        status: TaskStatus::Completed,
                        created_at: t.created_at,
                        started_at: t.started_at,
                        completed_at: Some(now),
                    };
                    proof {
                        lemma_ids_kept_by_update(old(self)@, self@, i as int);
                    }
                    true
                } else {
                    false
                }
            },
            None => false,
        }
    }

    /// The record of the task with identifier `id`, if one is registered.
    pub fn get_task_info(&self, id: u64) -> (r: Option<TaskInfo>)
        requires
            self@.wf(),
        ensures
            r == self@.lookup(id),
    {
        match self.find_task(id) {
            Some(i) => Some(self.tasks[i].duplicate()),
            None => None,
        }
    }

    /// Every task record, in registration order.
    pub fn get_all_tasks(&self) -> (r: Vec<TaskInfo>)
        ensures
            r@ == self@.tasks,
    {
        let n = self.tasks.len();
        let mut out: Vec<TaskInfo> = Vec::new();
        let mut i: usize = 0;
        while i < n
            invariant
                0 <= i <= n,
                n == self@.tasks.len(),
                out@ == self@.tasks.subrange(0, i as int),
            decreases n - i,
        {
            out.push(self.tasks[i].duplicate());
            proof {
                assert(out@ =~= self@.tasks.subrange(0, i + 1));
            }
            i = i + 1;
        }
        proof {
            assert(self@.tasks.subrange(0, n as int) =~= self@.tasks);
        }
        out
    }

    /// The records of the tasks with priority `priority`, in registration
    /// order.
    pub fn get_tasks_by_priority(&self, priority: TaskPriority) -> (r: Vec<TaskInfo>)
        ensures
            r@ == tasks_with_priority(self@.tasks, priority),
    {
        let n = self.tasks.len();
        let mut out: Vec<TaskInfo> = Vec::new();
        let mut i: usize = 0;
        while i < n
            invariant
                0 <= i <= n,
                n == self@.tasks.len(),
                out@ == tasks_with_priority(self@.tasks.subrange(0, i as int), priority),
            decreases n - i,
        {
            proof {
                assert(self@.tasks.subrange(0, i + 1).drop_last() =~= self@.tasks.subrange(
                    0,
                    i as int,
                ));
            }
            let matches_p = match (self.tasks[i].priority, priority) {
                (TaskPriority::Low, TaskPriority::Low) => true,
                (TaskPriority::Normal, TaskPriority::Normal) => true,
                (TaskPriority::High, TaskPriority::High) => true,
                (TaskPriority::Critical, TaskPriority::Critical) => true,
                _ => false,
            };
            if matches_p {
                out.push(self.tasks[i].duplicate());
            }
            i = i + 1;
        }
        proof {
            assert(self@.tasks.subrange(0, n as int) =~= self@.tasks);
        }
        out
    }

    /// How many tasks are recorded as running.
    pub fn running_count(&self) -> (r: usize)
        ensures
            r == count_running(self@.tasks),
    {
        let n = self.tasks.len();
        let mut count: usize = 0;
        let mut i: usize = 0;
        while i < n
            invariant
                0 <= i <= n,
                n == self@.tasks.len(),
                count == count_running(self@.tasks.subrange(0, i as int)),
                count <= i,
            decreases n - i,
        {
            proof {
                assert(self@.tasks.subrange(0, i + 1).drop_last() =~= self@.tasks.subrange(
                    0,
                    i as int,
                ));
            }
            let running = match self.tasks[i].status {
                TaskStatus::Running => true,
                _ => false,
            };
            if running {
                count = count + 1;
            }
            i = i + 1;
        }
        proof {
            assert(self@.tasks.subrange(0, n as int) =~= self@.tasks);
        }
        count
    }

    /// The identifier the next registered task will get.
    pub fn next_task_id(&self) -> (r: u64)
        ensures
            r == self@.next_id,
    {
        self.next_id
    }

    /// How many tasks have been registered over this scheduler's lifetime.
    pub fn task_count(&self) -> (r: usize)
        ensures
            r == self@.tasks.len(),
    {
        self.tasks.len()
    }
}

/// The index of the entry of `s` that `dequeue_by_priority` removes: the
/// first entry whose priority rank no later entry exceeds.
pub open spec fn best_index(s: Seq<TaskInfo>) -> int
    decreases s.len(),
{
    if s.len() <= 1 {
        0
    } else {
        let b = best_index(s.drop_last());
        if s.last().priority.spec_rank() > s[b].priority.spec_rank() {
            s.len() - 1
        } else {
            b
        }
    }
}

/// In a non-empty queue, `best_index` points at an entry of maximal
/// priority rank, and at the earliest such entry.
pub proof fn lemma_best_index_is_best(s: Seq<TaskInfo>)
    requires
        s.len() > 0,
    ensures
        0 <= best_index(s) < s.len(),
        forall|j: int|
            0 <= j < s.len() ==> (#[trigger] s[j]).priority.spec_rank()
                <= s[best_index(s)].priority.spec_rank(),
        forall|j: int|
            0 <= j < best_index(s) ==> (#[trigger] s[j]).priority.spec_rank()
                < s[best_index(s)].priority.spec_rank(),
    decreases s.len(),
{
    if s.len() > 1 {
        lemma_best_index_is_best(s.drop_last());
        assert forall|j: int|
            0 <= j < s.len() implies (#[trigger] s[j]).priority.spec_rank()
            <= s[best_index(s)].priority.spec_rank() by {
            if j < s.len() - 1 {
                assert(s.drop_last()[j] == s[j]);
            }
        }
        assert forall|j: int|
            0 <= j < best_index(s) implies (#[trigger] s[j]).priority.spec_rank()
            < s[best_index(s)].priority.spec_rank() by {
            assert(s.drop_last()[j] == s[j]);
            if best_index(s) < s.len() - 1 {
                assert(s.drop_last()[best_index(s)] == s[best_index(s)]);
            }
        }
    }
}

/// The mathematical content of a task queue: buffered records in arrival
/// order, and the capacity it was created with, if any.
#[verifier::ext_equal]
pub ghost struct QueueView {
    pub queue: Seq<TaskInfo>,
    pub max_size: Option<usize>,
}

impl QueueView {
    /// A bounded queue never holds more than its capacity.
    pub open spec fn wf(self) -> bool {
        self.max_size matches Some(m) ==> self.queue.len() <= m
    }

    pub open spec fn is_full(self) -> bool {
        self.max_size matches Some(m) && self.queue.len() >= m
    }
}

/// An ordered buffer of task records with optional maximum capacity,
/// serving either arrival order or priority order.
pub struct TaskQueue {
    queue: Vec<TaskInfo>,
    max_size: Option<usize>,
}

impl View for TaskQueue {
    type V = QueueView;

    closed spec fn view(&self) -> QueueView {
        QueueView { queue: self.queue@, max_size: self.max_size }
    }
}

impl TaskQueue {
    /// An empty queue without a capacity bound.
    pub fn new() -> (r: TaskQueue)
        ensures
            r@.wf(),
            r@.queue.len() == 0,
            r@.max_size is None,
    {
        TaskQueue { queue: Vec::new(), max_size: None }
    }

    /// An empty queue that will never buffer more than `max_size` records.
    pub fn with_max_size(max_size: usize) -> (r: TaskQueue)
        ensures
            r@.wf(),
            r@.queue.len() == 0,
            r@.max_size == Some(max_size),
    {
        TaskQueue { queue: Vec::new(), max_size: Some(max_size) }
    }

    /// How many records are buffered.
    pub fn size(&self) -> (r: usize)
        ensures
            r == self@.queue.len(),
    {
        self.queue.len()
    }

    pub fn is_empty(&self) -> (r: bool)
        ensures
            r == (self@.queue.len() == 0),
    {
        self.queue.len() == 0
    }

    /// Appends a record, unless the queue is at its capacity — then the
    /// record is handed back inside the error and nothing changes.
    pub fn enqueue(&mut self, task: TaskInfo) -> (r: Result<(), ResourceError>)
        requires
            old(self)@.wf(),
        ensures
            final(self)@.wf(),
            final(self)@.max_size == old(self)@.max_size,
            old(self)@.is_full() ==> r == Err::<(), ResourceError>(
                ResourceError::ResourceExhausted,
            ) && final(self)@ == old(self)@,
            !old(self)@.is_full() ==> r == Ok::<(), ResourceError>(()) && final(self)@.queue == old(
                self,
            )@.queue.push(task),
    {
        let full = match self.max_size {
            Some(m) => self.queue.len() >= m,
            None => false,
        };
        if full {
            Err(ResourceError::ResourceExhausted)
        } else {
            self.queue.push(task);
            Ok(())
        }
    }

    /// Removes and returns the record that arrived first, if any.
    pub fn dequeue(&mut self) -> (r: Option<TaskInfo>)
        requires
            old(self)@.wf(),
        ensures
            final(self)@.wf(),
            final(self)@.max_size == old(self)@.max_size,
            old(self)@.queue.len() == 0 ==> r is None && final(self)@ == old(self)@,
            old(self)@.queue.len() > 0 ==> r == Some(old(self)@.queue[0]) && final(self)@.queue
                == old(self)@.queue.drop_first(),
    {
        if self.queue.len() == 0 {
            None
        } else {
            let t = self.queue.remove(0);
            proof {
                assert(self@.queue =~= old(self)@.queue.drop_first());
            }
            Some(t)
        }
    }

    /// Removes and returns a record of highest priority; among records of
    /// equal priority the one that arrived first leaves first.
    pub fn dequeue_by_priority(&mut self) -> (r: Option<TaskInfo>)
        requires
            old(self)@.wf(),
        ensures
            final(self)@.wf(),
            final(self)@.max_size == old(self)@.max_size,
            old(self)@.queue.len() == 0 ==> r is None && final(self)@ == old(self)@,
            old(self)@.queue.len() > 0 ==> {
                let b = best_index(old(self)@.queue);
                r == Some(old(self)@.queue[b]) && final(self)@.queue == old(self)@.queue.remove(b)
            },
    {
        let n = self.queue.len();
        if n == 0 {
            return None;
        }
        let mut best: usize = 0;
        let mut best_rank: u8 = self.queue[0].priority.rank();
        let mut i: usize = 1;
        while i < n
            invariant
                1 <= i <= n,
                n == self@.queue.len(),
                self == old(self),
                0 <= best < i,
                best == best_index(self@.queue.subrange(0, i as int)),
                best_rank == self@.queue[best as int].priority.spec_rank(),
            decreases n - i,
        {
            proof {
                assert(self@.queue.subrange(0, i + 1).drop_last() =~= self@.queue.subrange(
                    0,
                    i as int,
                ));
            }
            let rank_i = self.queue[i].priority.rank();
            if rank_i > best_rank {
                best = i;
                best_rank = rank_i;
            }
            i = i + 1;
        }
        proof {
            assert(self@.queue.subrange(0, n as int) =~= self@.queue);
        }
        let t = self.queue.remove(best);
        Some(t)
    }
}

/// Updating one record without touching its identifier keeps the registry
/// well-formed.
proof fn lemma_ids_kept_by_update(pre: SchedulerView, post: SchedulerView, k: int)
    requires
        pre.wf(),
        post.next_id == pre.next_id,
        post.tasks.len() == pre.tasks.len(),
        0 <= k < pre.tasks.len(),
        post.tasks[k].id == pre.tasks[k].id,
        forall|i: int| 0 <= i < pre.tasks.len() && i != k ==> post.tasks[i] == pre.tasks[i],
    ensures
        post.wf(),
{
    assert forall|i: int, j: int|
        0 <= i < j < post.tasks.len() implies (#[trigger] post.tasks[i]).id < (
    #[trigger] post.tasks[j]).id by {
        assert(pre.tasks[i].id < pre.tasks[j].id);
    }
}

/// Task identifiers issued by one scheduler are unique and strictly
/// increasing: every registration returns an identifier strictly above
/// every identifier in the registry, and two consecutive registrations
/// return strictly increasing identifiers.
/// Across any run of registrations on one scheduler, the identifiers
/// handed out are strictly increasing — and so all distinct.
pub proof fn lemma_issue_sequence_increases(
    states: Seq<SchedulerView>,
    names: Seq<String>,
    prios: Seq<TaskPriority>,
    times: Seq<u64>,
)
    requires
        states.len() == names.len() + 1,
        names.len() == prios.len(),
        names.len() == times.len(),
        states[0].next_id + names.len() <= u64::MAX,
        forall|i: int|
            0 <= i < names.len() ==> states[i + 1] == (#[trigger] states[i].spec_register(
                names[i],
                prios[i],
                times[i],
            )).0,
    ensures
        forall|i: int| 0 <= i < states.len() ==> (#[trigger] states[i]).next_id == states[0].next_id + i,
        forall|i: int, j: int|
            0 <= i < j < names.len() ==> (#[trigger] states[i].spec_register(
                names[i],
                prios[i],
                times[i],
            )).1 < (#[trigger] states[j].spec_register(names[j], prios[j], times[j])).1,
    decreases states.len(),
{
    if names.len() > 0 {
        assert(states[1] == states[0].spec_register(names[0], prios[0], times[0]).0);
        assert(states[1].next_id == states[0].next_id + 1);
        assert(states.drop_first()[0] == states[1]);
        assert forall|i: int|
            0 <= i < names.drop_first().len() implies states.drop_first()[i + 1] == (
        #[trigger] states.drop_first()[i].spec_register(
            names.drop_first()[i],
            prios.drop_first()[i],
            times.drop_first()[i],
        )).0 by {
            assert(states.drop_first()[i + 1] == states[i + 2]);
            assert(states.drop_first()[i] == states[i + 1]);
            assert(names.drop_first()[i] == names[i + 1]);
            assert(prios.drop_first()[i] == prios[i + 1]);
            assert(times.drop_first()[i] == times[i + 1]);
            assert(states[i + 2] == states[i + 1].spec_register(
                names[i + 1],
                prios[i + 1],
                times[i + 1],
            ).0);
        }
        lemma_issue_sequence_increases(
            states.drop_first(),
            names.drop_first(),
            prios.drop_first(),
            times.drop_first(),
        );
        assert forall|i: int|
            0 <= i < states.len() implies (#[trigger] states[i]).next_id == states[0].next_id
            + i by {
            if i > 0 {
                assert(states.drop_first()[i - 1] == states[i]);
            }
        }
        assert forall|i: int, j: int|
            0 <= i < j < names.len() implies (#[trigger] states[i].spec_register(
            names[i],
            prios[i],
            times[i],
        )).1 < (#[trigger] states[j].spec_register(names[j], prios[j], times[j])).1 by {
            assert(states[i].spec_register(names[i], prios[i], times[i]).1 == states[i].next_id);
            assert(states[j].spec_register(names[j], prios[j], times[j]).1 == states[j].next_id);
        }
    }
}

pub proof fn lemma_task_ids_strictly_increase(
    v: SchedulerView,
    first_name: String,
    first_prio: TaskPriority,
    first_time: u64,
    second_name: String,
    second_prio: TaskPriority,
    second_time: u64,
)
    requires
        v.wf(),
        v.next_id < u64::MAX,
    ensures
        v.spec_register(first_name, first_prio, first_time).0.wf(),
        forall|i: int|
            0 <= i < v.tasks.len() ==> v.spec_register(first_name, first_prio, first_time).1 > (
            #[trigger] v.tasks[i]).id,
        v.spec_register(first_name, first_prio, first_time).1 < v.spec_register(first_name, first_prio, first_time).0.spec_register(
            second_name,
            second_prio,
            second_time,
        ).1,
        forall|i: int, j: int|
            0 <= i < j < v.spec_register(first_name, first_prio, first_time).0.tasks.len() ==> (
            #[trigger] v.spec_register(first_name, first_prio, first_time).0.tasks[i]).id != (#[trigger] v.spec_register(
                first_name,
                first_prio,
                first_time,
            ).0.tasks[j]).id,
{
    let v2 = v.spec_register(first_name, first_prio, first_time).0;
    assert(v2.wf());
}

} // verus!
