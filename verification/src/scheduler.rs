use vstd::prelude::*;

use crate::errors::SchedulerError;
use crate::queue::{purged, ExecQueue};
use crate::task::{instance_id_of, ScheduleType, Task, TaskId, TaskInstance};

verus! {

/// Whether some registered task carries the given id.
pub open spec fn has_id(tasks: Seq<Task>, id: Seq<char>) -> bool {
    exists|i: int| 0 <= i < tasks.len() && tasks[i].task_id@ == id
}

/// The registered task carrying the given id (meaningful when ids are unique
/// and the id is present).
pub open spec fn task_of(tasks: Seq<Task>, id: Seq<char>) -> Task {
    tasks[choose|i: int| 0 <= i < tasks.len() && tasks[i].task_id@ == id]
}

/// Task ids are unique within the registry.
pub open spec fn ids_unique(tasks: Seq<Task>) -> bool {
    forall|i: int, j: int|
        0 <= i < j < tasks.len() ==> (#[trigger] tasks[i].task_id@) != (#[trigger] tasks[j].task_id@)
}

/// Whether the given id occurs in a list of ids (the drain set).
pub open spec fn id_in(ids: Seq<TaskId>, id: Seq<char>) -> bool {
    exists|i: int| 0 <= i < ids.len() && ids[i]@ == id
}

/// No id occurs twice in the list.
pub open spec fn ids_distinct(ids: Seq<TaskId>) -> bool {
    forall|i: int, j: int| 0 <= i < j < ids.len() ==> (#[trigger] ids[i]@) != (#[trigger] ids[j]@)
}

/// `after` is `before` with the entry for `id` taken out and everything else
/// kept.
pub open spec fn removed_id(before: Seq<Task>, after: Seq<Task>, id: Seq<char>) -> bool {
    &&& after.len() == before.len() - 1
    &&& forall|x: Seq<char>| #[trigger] has_id(after, x) <==> has_id(before, x) && x != id
    &&& forall|x: Seq<char>|
        x != id && #[trigger] has_id(before, x) ==> task_of(after, x) == task_of(before, x)
}

/// `inst` is an instance of `task` due at `exec_at`, carrying retry attempt
/// `retry_num` and arming sequence number `seq_no`.
pub open spec fn is_instance(
    inst: TaskInstance,
    task: Task,
    exec_at: u64,
    retry_num: u16,
    seq_no: u64,
) -> bool {
    &&& inst.task == task
    &&& inst.exec_at == exec_at
    &&& inst.retry_num == retry_num
    &&& inst.seq_no == seq_no
    &&& inst.instance_id@ == instance_id_of(task.task_id@, seq_no as nat)
    &&& inst.logs@ == Seq::<char>::empty()
}

/// The task carrying `id` occurs at position `i`, so `task_of` picks it.
pub proof fn lemma_task_of(tasks: Seq<Task>, id: Seq<char>, i: int)
    requires
        ids_unique(tasks),
        0 <= i < tasks.len(),
        tasks[i].task_id@ == id,
    ensures
        has_id(tasks, id),
        task_of(tasks, id) == tasks[i],
{
    assert(has_id(tasks, id));
    let j = choose|j: int| 0 <= j < tasks.len() && tasks[j].task_id@ == id;
    if i < j {
        assert(tasks[i].task_id@ != tasks[j].task_id@);
    } else if j < i {
        assert(tasks[j].task_id@ != tasks[i].task_id@);
    }
}

/// Taking the entry at `i` (the one carrying `id`) out of a registry with
/// unique ids keeps the ids unique and removes exactly that id.
pub proof fn lemma_registry_remove(before: Seq<Task>, i: int, id: Seq<char>)
    requires
        ids_unique(before),
        0 <= i < before.len(),
        before[i].task_id@ == id,
    ensures
        ids_unique(before.remove(i)),
        removed_id(before, before.remove(i), id),
{
    let after = before.remove(i);
    before.remove_ensures(i);
    assert forall|i2: int, j2: int| 0 <= i2 < j2 < after.len() implies (
    #[trigger] after[i2].task_id@) != (#[trigger] after[j2].task_id@) by {
        let m1: int = if i2 < i {
            i2
        } else {
            i2 + 1
        };
        let m2: int = if j2 < i {
            j2
        } else {
            j2 + 1
        };
        assert(after[i2] == before[m1]);
        assert(after[j2] == before[m2]);
        assert(before[m1].task_id@ != before[m2].task_id@);
    }
    assert forall|x: Seq<char>| #![trigger has_id(after, x)] (has_id(after, x) <==> has_id(
        before,
        x,
    ) && x != id) by {
        if has_id(after, x) {
            let k = choose|k: int| 0 <= k < after.len() && after[k].task_id@ == x;
            let m: int = if k < i {
                k
            } else {
                k + 1
            };
            assert(after[k] == before[m]);
            assert(before[m].task_id@ == x);
            assert(has_id(before, x));
            if x == id {
                if m < i {
                    assert(before[m].task_id@ != before[i].task_id@);
                } else {
                    assert(before[i].task_id@ != before[m].task_id@);
                }
                assert(false);
            }
        }
        if has_id(before, x) && x != id {
            let m = choose|m: int| 0 <= m < before.len() && before[m].task_id@ == x;
            assert(m != i);
            let k: int = if m < i {
                m
            } else {
                m - 1
            };
            assert(after[k] == before[m]);
            assert(after[k].task_id@ == x);
            assert(has_id(after, x));
        }
    }
    assert forall|x: Seq<char>| x != id && #[trigger] has_id(before, x) implies task_of(after, x)
        == task_of(before, x) by {
        let m = choose|m: int| 0 <= m < before.len() && before[m].task_id@ == x;
        lemma_task_of(before, x, m);
        assert(m != i);
        let k: int = if m < i {
            m
        } else {
            m - 1
        };
        assert(after[k] == before[m]);
        lemma_task_of(after, x, k);
    }
}

/// Taking the entry at `k` (the one carrying `id`) out of a distinct id list
/// keeps the ids distinct and removes exactly that id.
pub proof fn lemma_drain_remove(before: Seq<TaskId>, k: int, id: Seq<char>)
    requires
        ids_distinct(before),
        0 <= k < before.len(),
        before[k]@ == id,
    ensures
        ids_distinct(before.remove(k)),
        forall|x: Seq<char>| #![trigger id_in(before.remove(k), x)] (id_in(before.remove(k), x)
            <==> id_in(before, x) && x != id),
        forall|j: int| 0 <= j < before.remove(k).len() ==> exists|m: int|
            0 <= m < before.len() && #[trigger] before.remove(k)[j] == before[m],
{
    let after = before.remove(k);
    before.remove_ensures(k);
    assert forall|i2: int, j2: int| 0 <= i2 < j2 < after.len() implies (
    #[trigger] after[i2]@) != (#[trigger] after[j2]@) by {
        let m1: int = if i2 < k {
            i2
        } else {
            i2 + 1
        };
        let m2: int = if j2 < k {
            j2
        } else {
            j2 + 1
        };
        assert(after[i2] == before[m1]);
        assert(after[j2] == before[m2]);
        assert(before[m1]@ != before[m2]@);
    }
    assert forall|x: Seq<char>| #![trigger id_in(after, x)] (id_in(after, x) <==> id_in(before, x)
        && x != id) by {
        if id_in(after, x) {
            let j = choose|j: int| 0 <= j < after.len() && after[j]@ == x;
            let m: int = if j < k {
                j
            } else {
                j + 1
            };
            assert(after[j] == before[m]);
            assert(before[m]@ == x);
            assert(id_in(before, x));
            if x == id {
                if m < k {
                    assert(before[m]@ != before[k]@);
                } else {
                    assert(before[k]@ != before[m]@);
                }
                assert(false);
            }
        }
        if id_in(before, x) && x != id {
            let m = choose|m: int| 0 <= m < before.len() && before[m]@ == x;
            assert(m != k);
            let j: int = if m < k {
                m
            } else {
                m - 1
            };
            assert(after[j] == before[m]);
            assert(id_in(after, x));
        }
    }
    assert forall|j: int| 0 <= j < after.len() implies exists|m: int|
        0 <= m < before.len() && #[trigger] after[j] == before[m] by {
        let m: int = if j < k {
            j
        } else {
            j + 1
        };
        assert(after[j] == before[m]);
    }
}

/// The position of the task carrying `id` in the registry.
fn index_of_task(tasks: &Vec<Task>, id: &TaskId) -> (i: usize)
    requires
        has_id(tasks@, id@),
    ensures
        i < tasks@.len(),
        tasks@[i as int].task_id@ == id@,
{
    let mut i: usize = 0;
    while i < tasks.len()
        invariant
            has_id(tasks@, id@),
            i <= tasks@.len(),
            forall|j: int| 0 <= j < i ==> (#[trigger] tasks@[j]).task_id@ != id@,
        decreases tasks@.len() - i,
    {
        if tasks[i].task_id == *id {
            return i;
        }
        i = i + 1;
    }
    proof {
        let w = choose|w: int| 0 <= w < tasks@.len() && tasks@[w].task_id@ == id@;
        assert(false);
    }
    0
}

/// The position of `id` in a list of ids, if present.
fn find_id_index(ids: &Vec<TaskId>, id: &TaskId) -> (r: Option<usize>)
    ensures
        match r {
            Option::None => !id_in(ids@, id@),
            Option::Some(k) => k < ids@.len() && (ids@[k as int])@ == id@,
        },
{
    let mut k: usize = 0;
    while k < ids.len()
        invariant
            k <= ids@.len(),
            forall|j: int| 0 <= j < k ==> (#[trigger] ids@[j])@ != id@,
        decreases ids@.len() - k,
    {
        if ids[k] == *id {
            return Some(k);
        }
        k = k + 1;
    }
    None
}

/// Base delay between retries of a failing task: two seconds, in nanoseconds.
pub const BACKOFF_BASE_NANOS: u64 = 2_000_000_000;

/// Linear backoff applied after the failure of retry attempt `n`:
/// `BACKOFF_BASE_NANOS * (n + 1)`, strictly increasing in `n`.
pub open spec fn backoff_nanos(n: int) -> int {
    BACKOFF_BASE_NANOS * (n + 1)
}

/// The scheduled retry delays grow strictly with the attempt number.
pub proof fn lemma_backoff_increasing(n1: int, n2: int)
    requires
        0 <= n1 < n2,
    ensures
        backoff_nanos(n1) < backoff_nanos(n2),
{
}

/// The backoff delay before retry attempt `retry_num + 1`.
pub fn backoff(retry_num: u16) -> (d: u64)
    ensures
        d == backoff_nanos(retry_num as int),
{
    BACKOFF_BASE_NANOS * ((retry_num as u64) + 1)
}

/// Schedules and manages the lifecycle of tasks: the task registry, the
/// execution queue, and the drain set, mutated together so that their joint
/// invariants hold at every step. The embedding program must serialize all
/// access through one owner (a single lock or a single-owner loop reached via
/// a channel), so every operation here appears atomic to clients.
pub struct Scheduler {
    /// Authoritative mapping from task id to task definition.
    pub tasks: Vec<Task>,
    /// Queued execution instances, earliest `exec_at` first.
    pub task_q: ExecQueue,
    /// Ids marked for removal on their next successful completion.
    pub drain: Vec<TaskId>,
    /// Arming counter: stamps each new instance with a fresh sequence number.
    pub next_seq: u64,
}

impl Scheduler {
    /// The registry contents.
    pub open spec fn registry(&self) -> Seq<Task> {
        self.tasks@
    }

    /// The queued instances.
    pub open spec fn queue(&self) -> Seq<TaskInstance> {
        self.task_q@
    }

    /// The drain set.
    pub open spec fn drain_ids(&self) -> Seq<TaskId> {
        self.drain@
    }

    /// Joint well-formedness of registry, queue and drain set:
    /// - task ids are unique in the registry;
    /// - every queued instance references a task id still present in the
    ///   registry;
    /// - every queued instance satisfies `retry_num <= task.retries`;
    /// - the drain set holds no duplicates and only registered ids.
    pub open spec fn wf(&self) -> bool {
        &&& ids_unique(self.tasks@)
        &&& forall|k: int|
            0 <= k < self.task_q@.len() ==> has_id(
                self.tasks@,
                (#[trigger] self.task_q@[k]).task.task_id@,
            )
        &&& forall|k: int|
            0 <= k < self.task_q@.len() ==> (#[trigger] self.task_q@[k]).retry_num
                <= self.task_q@[k].task.retries
        &&& ids_distinct(self.drain@)
        &&& forall|k: int|
            0 <= k < self.drain@.len() ==> has_id(self.tasks@, (#[trigger] self.drain@[k])@)
    }

    /// Create a new, empty scheduler.
    pub fn new() -> (s: Self)
        ensures
            s.wf(),
            s.registry() == Seq::<Task>::empty(),
            s.queue() == Seq::<TaskInstance>::empty(),
            s.drain_ids() == Seq::<TaskId>::empty(),
            s.next_seq == 0,
    {
        Scheduler { tasks: Vec::new(), task_q: ExecQueue::new(), drain: Vec::new(), next_seq: 0 }
    }

    /// Whether a task with the given id is registered.
    pub fn contains_task(&self, id: &TaskId) -> (r: bool)
        ensures
            r == has_id(self.registry(), id@),
    {
        let mut i: usize = 0;
        while i < self.tasks.len()
            invariant
                i <= self.tasks@.len(),
                forall|j: int| 0 <= j < i ==> (#[trigger] self.tasks@[j]).task_id@ != id@,
            decreases self.tasks@.len() - i,
        {
            if self.tasks[i].task_id == *id {
                assert(self.tasks@[i as int].task_id@ == id@);
                return true;
            }
            i = i + 1;
        }
        false
    }

    /// A copy of the registered task with the given id, if any.
    pub fn get_task(&self, id: &TaskId) -> (r: Option<Task>)
        requires
            self.wf(),
        ensures
            match r {
                Option::None => !has_id(self.registry(), id@),
                Option::Some(t) => {
                    &&& has_id(self.registry(), id@)
                    &&& t == task_of(self.registry(), id@)
                    &&& t.task_id@ == id@
                },
            },
    {
        let mut i: usize = 0;
        while i < self.tasks.len()
            invariant
                self.wf(),
                i <= self.tasks@.len(),
                forall|j: int| 0 <= j < i ==> (#[trigger] self.tasks@[j]).task_id@ != id@,
            decreases self.tasks@.len() - i,
        {
            if self.tasks[i].task_id == *id {
                proof {
                    lemma_task_of(self.tasks@, id@, i as int);
                }
                return Some(self.tasks[i].clone());
            }
            i = i + 1;
        }
        None
    }

    /// A snapshot of the registry, for observability and read-only queries.
    pub fn list_tasks(&self) -> (r: Vec<Task>)
        ensures
            r@ == self.registry(),
    {
        let r = self.tasks.clone();
        proof {
            assert forall|i: int| 0 <= i < self.tasks@.len() implies r@[i] == self.tasks@[i] by {
                assert(cloned::<Task>(self.tasks@[i], r@[i]));
            }
            assert(r@ =~= self.tasks@);
        }
        r
    }

    /// Arm a new instance of `task`, due at `exec_at` (nanoseconds since the
    /// epoch) and carrying retry attempt `retry_num`. Always succeeds: a fresh
    /// instance is created and queued; nothing else changes.
    pub fn schedule_task(&mut self, task: Task, exec_at: u64, retry_num: u16) -> (r: Result<
        (),
        SchedulerError,
    >)
        requires
            old(self).wf(),
            old(self).next_seq < u64::MAX,
            has_id(old(self).registry(), task.task_id@),
            retry_num <= task.retries,
        ensures
            final(self).wf(),
            r is Ok,
            final(self).registry() == old(self).registry(),
            final(self).drain_ids() == old(self).drain_ids(),
            final(self).queue() == old(self).queue().push(final(self).queue().last()),
            is_instance(
                final(self).queue().last(),
                task,
                exec_at,
                retry_num,
                old(self).next_seq,
            ),
            final(self).next_seq == old(self).next_seq + 1,
    {
        let inst = TaskInstance::new(task, exec_at, retry_num, self.next_seq);
        self.task_q.push(inst);
        self.next_seq = self.next_seq + 1;
        proof {
            assert(self.task_q@.last() == inst);
            assert forall|k: int| 0 <= k < self.task_q@.len() implies has_id(
                self.tasks@,
                (#[trigger] self.task_q@[k]).task.task_id@,
            ) && self.task_q@[k].retry_num <= self.task_q@[k].task.retries by {
                if k < self.task_q@.len() - 1 {
                    assert(self.task_q@[k] == old(self).task_q@[k]);
                }
            }
        }
        Ok(())
    }

    /// Register a task and arm its first instance at `start_time`. Fails with
    /// `TaskAlreadyExists`, leaving the scheduler unchanged, exactly when the
    /// id is already registered.
    pub fn add_task(&mut self, task: Task, start_time: u64) -> (r: Result<(), SchedulerError>)
        requires
            old(self).wf(),
            old(self).next_seq < u64::MAX,
        ensures
            final(self).wf(),
            match r {
                Result::Err(e) => {
                    &&& e == SchedulerError::TaskAlreadyExists
                    &&& has_id(old(self).registry(), task.task_id@)
                    &&& *final(self) == *old(self)
                },
                Result::Ok(_) => {
                    &&& !has_id(old(self).registry(), task.task_id@)
                    &&& final(self).registry() == old(self).registry().push(task)
                    &&& final(self).drain_ids() == old(self).drain_ids()
                    &&& final(self).queue() == old(self).queue().push(final(self).queue().last())
                    &&& is_instance(
                        final(self).queue().last(),
                        task,
                        start_time,
                        0u16,
                        old(self).next_seq,
                    )
                    &&& final(self).next_seq == old(self).next_seq + 1
                },
            },
    {
        if self.contains_task(&task.task_id) {
            return Err(SchedulerError::TaskAlreadyExists);
        }
        let task2 = task.clone();
        self.tasks.push(task);
        proof {
            assert forall|i: int, j: int| 0 <= i < j < self.tasks@.len() implies (
            #[trigger] self.tasks@[i].task_id@) != (#[trigger] self.tasks@[j].task_id@) by {
                if j < self.tasks@.len() - 1 {
                    assert(old(self).tasks@[i].task_id@ != old(self).tasks@[j].task_id@);
                } else {
                    assert(self.tasks@[i] == old(self).tasks@[i]);
                }
            }
            assert forall|k: int| 0 <= k < self.task_q@.len() implies has_id(
                self.tasks@,
                (#[trigger] self.task_q@[k]).task.task_id@,
            ) by {
                let w = choose|w: int|
                    0 <= w < old(self).tasks@.len() && old(self).tasks@[w].task_id@
                        == self.task_q@[k].task.task_id@;
                assert(self.tasks@[w].task_id@ == self.task_q@[k].task.task_id@);
            }
            assert forall|k: int| 0 <= k < self.drain@.len() implies has_id(
                self.tasks@,
                (#[trigger] self.drain@[k])@,
            ) by {
                let w = choose|w: int|
                    0 <= w < old(self).tasks@.len() && old(self).tasks@[w].task_id@
                        == self.drain@[k]@;
                assert(self.tasks@[w].task_id@ == self.drain@[k]@);
            }
            assert(self.tasks@[self.tasks@.len() - 1].task_id@ == task2.task_id@);
            assert(has_id(self.tasks@, task2.task_id@));
        }
        let r = self.schedule_task(task2, start_time, 0);
        r
    }

    /// Mark a task for removal on its next successful completion. Queued
    /// instances keep firing (including retries) until a success occurs.
    /// Fails with `TaskNotFound`, leaving the scheduler unchanged, exactly
    /// when the id is not registered. Marking twice is the same as marking
    /// once.
    pub fn drain_task(&mut self, task_id: TaskId) -> (r: Result<(), SchedulerError>)
        requires
            old(self).wf(),
        ensures
            final(self).wf(),
            final(self).registry() == old(self).registry(),
            final(self).queue() == old(self).queue(),
            final(self).next_seq == old(self).next_seq,
            match r {
                Result::Err(e) => {
                    &&& e == SchedulerError::TaskNotFound
                    &&& !has_id(old(self).registry(), task_id@)
                    &&& final(self).drain_ids() == old(self).drain_ids()
                },
                Result::Ok(_) => {
                    &&& has_id(old(self).registry(), task_id@)
                    &&& forall|x: Seq<char>|
                        #[trigger] id_in(final(self).drain_ids(), x) <==> (id_in(
                            old(self).drain_ids(),
                            x,
                        ) || x == task_id@)
                },
            },
    {
        if !self.contains_task(&task_id) {
            return Err(SchedulerError::TaskNotFound);
        }
        match find_id_index(&self.drain, &task_id) {
            Option::Some(k) => {
                proof {
                    assert(self.drain@[k as int]@ == task_id@);
                    assert forall|x: Seq<char>| #![trigger id_in(self.drain_ids(), x)] (id_in(
                        self.drain_ids(),
                        x,
                    ) <==> (id_in(old(self).drain_ids(), x) || x == task_id@)) by {
                        if x == task_id@ {
                            assert(id_in(self.drain_ids(), x));
                        }
                    }
                }
                Ok(())
            },
            Option::None => {
                self.drain.push(task_id);
                proof {
                    let n = self.drain@.len() - 1;
                    assert forall|i2: int, j2: int|
                        0 <= i2 < j2 < self.drain@.len() implies (#[trigger] self.drain@[i2])@ != (
                    #[trigger] self.drain@[j2])@ by {
                        if j2 < n {
                            assert(old(self).drain@[i2]@ != old(self).drain@[j2]@);
                        } else {
                            assert(self.drain@[i2] == old(self).drain@[i2]);
                            assert(self.drain@[j2]@ == task_id@);
                        }
                    }
                    assert forall|k: int| 0 <= k < self.drain@.len() implies has_id(
                        self.tasks@,
                        (#[trigger] self.drain@[k])@,
                    ) by {
                        if k < n {
                            assert(self.drain@[k] == old(self).drain@[k]);
                        } else {
                            assert(self.drain@[k]@ == task_id@);
                        }
                    }
                    assert forall|x: Seq<char>| #![trigger id_in(self.drain_ids(), x)] (id_in(
                        self.drain_ids(),
                        x,
                    ) <==> (id_in(old(self).drain_ids(), x) || x == task_id@)) by {
                        if id_in(self.drain_ids(), x) {
                            let w = choose|w: int|
                                0 <= w < self.drain@.len() && self.drain@[w]@ == x;
                            if w < n {
                                assert(old(self).drain@[w]@ == x);
                            }
                        }
                        if id_in(old(self).drain_ids(), x) {
                            let w = choose|w: int|
                                0 <= w < old(self).drain@.len() && old(self).drain@[w]@ == x;
                            assert(self.drain@[w]@ == x);
                        }
                        if x == task_id@ {
                            assert(self.drain@[n]@ == x);
                        }
                    }
                }
                Ok(())
            },
        }
    }

    /// Remove the registry entry for `id`, purge the queue of its instances,
    /// and forget any drain mark it carries.
    fn remove_task_entirely(&mut self, id: &TaskId)
        requires
            old(self).wf(),
            has_id(old(self).registry(), id@),
        ensures
            final(self).wf(),
            removed_id(old(self).registry(), final(self).registry(), id@),
            final(self).queue() == purged(old(self).queue(), id@),
            forall|x: Seq<char>|
                #[trigger] id_in(final(self).drain_ids(), x) <==> id_in(old(self).drain_ids(), x)
                    && x != id@,
            final(self).next_seq == old(self).next_seq,
    {
        let ghost pre = *self;
        // Registry: take the entry out.
        let i = index_of_task(&self.tasks, id);
        let _removed = self.tasks.remove(i);
        proof {
            lemma_registry_remove(pre.tasks@, i as int, id@);
        }
        // Queue: purge the id's instances.
        self.task_q.purge_id(id);
        // Drain set: forget the mark, if any.
        match find_id_index(&self.drain, id) {
            Option::Some(k) => {
                let _ = self.drain.remove(k);
                proof {
                    lemma_drain_remove(pre.drain@, k as int, id@);
                }
            },
            Option::None => {
                proof {
                    assert forall|x: Seq<char>| #![trigger id_in(self.drain@, x)] (id_in(
                        self.drain@,
                        x,
                    ) <==> id_in(pre.drain@, x) && x != id@) by {
                        if id_in(pre.drain@, x) && x == id@ {
                            let w = choose|w: int|
                                0 <= w < pre.drain@.len() && pre.drain@[w]@ == x;
                            assert(false);
                        }
                    }
                }
            },
        }
        proof {
            crate::queue::lemma_purged_elems(pre.task_q@, id@);
            let newq = self.task_q@;
            assert forall|k: int| 0 <= k < newq.len() implies has_id(
                self.tasks@,
                (#[trigger] newq[k]).task.task_id@,
            ) && newq[k].retry_num <= newq[k].task.retries by {
                let m = choose|m: int| 0 <= m < pre.task_q@.len() && newq[k] == pre.task_q@[m];
                assert(has_id(pre.tasks@, pre.task_q@[m].task.task_id@));
                assert(pre.task_q@[m].retry_num <= pre.task_q@[m].task.retries);
                assert(newq[k].task.task_id@ != id@);
            }
            assert forall|k: int| 0 <= k < self.drain@.len() implies has_id(
                self.tasks@,
                (#[trigger] self.drain@[k])@,
            ) by {
                assert(id_in(self.drain@, self.drain@[k]@));
                let m = choose|m: int|
                    0 <= m < pre.drain@.len() && pre.drain@[m]@ == self.drain@[k]@;
                assert(has_id(pre.tasks@, pre.drain@[m]@));
                assert(self.drain@[k]@ != id@);
            }
        }
    }

    /// Immediately and forcibly remove a task: drop its registry entry, purge
    /// every queued instance of it, and forget any drain mark it carries. An
    /// instance already popped and mid-execution is allowed to finish, but its
    /// completion will find the task gone and re-arm nothing. Fails with
    /// `TaskNotFound`, leaving the scheduler unchanged, exactly when the id is
    /// not registered.
    pub fn kill_task(&mut self, task_id: TaskId) -> (r: Result<(), SchedulerError>)
        requires
            old(self).wf(),
        ensures
            final(self).wf(),
            match r {
                Result::Err(e) => {
                    &&& e == SchedulerError::TaskNotFound
                    &&& !has_id(old(self).registry(), task_id@)
                    &&& *final(self) == *old(self)
                },
                Result::Ok(_) => {
                    &&& has_id(old(self).registry(), task_id@)
                    &&& removed_id(old(self).registry(), final(self).registry(), task_id@)
                    &&& final(self).queue() == purged(old(self).queue(), task_id@)
                    &&& forall|x: Seq<char>|
                        #[trigger] id_in(final(self).drain_ids(), x) <==> id_in(
                            old(self).drain_ids(),
                            x,
                        ) && x != task_id@
                    &&& final(self).next_seq == old(self).next_seq
                },
            },
    {
        if !self.contains_task(&task_id) {
            return Err(SchedulerError::TaskNotFound);
        }
        self.remove_task_entirely(&task_id);
        Ok(())
    }

    /// Pop the earliest queued instance if one is due at `now`
    /// (`exec_at <= now`). What is popped is the queue minimum, so repeated
    /// pops yield non-decreasing `exec_at`. The popped instance references a
    /// registered task and satisfies `retry_num <= task.retries`.
    pub fn pop_due(&mut self, now: u64) -> (r: Option<TaskInstance>)
        requires
            old(self).wf(),
        ensures
            final(self).wf(),
            final(self).registry() == old(self).registry(),
            final(self).drain_ids() == old(self).drain_ids(),
            final(self).next_seq == old(self).next_seq,
            match r {
                Option::None => {
                    &&& final(self).queue() == old(self).queue()
                    &&& forall|j: int|
                        0 <= j < old(self).queue().len()
                            ==> (#[trigger] old(self).queue()[j]).exec_at > now
                },
                Option::Some(inst) => {
                    &&& inst.exec_at <= now
                    &&& final(self).queue().len() == old(self).queue().len() - 1
                    &&& forall|j: int|
                        0 <= j < old(self).queue().len() ==> crate::queue::inst_le(
                            inst,
                            #[trigger] old(self).queue()[j],
                        )
                    &&& exists|k: int|
                        0 <= k < old(self).queue().len() && inst == old(self).queue()[k]
                            && final(self).queue() == old(self).queue().remove(k)
                    &&& has_id(old(self).registry(), inst.task.task_id@)
                    &&& inst.retry_num <= inst.task.retries
                },
            },
    {
        let r = self.task_q.pop_if_due(now);
        proof {
            if r is Some {
                let k = choose|k: int|
                    0 <= k < old(self).task_q@.len() && r->0 == old(self).task_q@[k]
                        && self.task_q@ == old(self).task_q@.remove(k);
                old(self).task_q@.remove_ensures(k);
                assert forall|j: int| 0 <= j < self.task_q@.len() implies has_id(
                    self.tasks@,
                    (#[trigger] self.task_q@[j]).task.task_id@,
                ) && self.task_q@[j].retry_num <= self.task_q@[j].task.retries by {
                    if j < k {
                        assert(self.task_q@[j] == old(self).task_q@[j]);
                    } else {
                        assert(self.task_q@[j] == old(self).task_q@[j + 1]);
                    }
                }
            }
        }
        r
    }

    /// The `exec_at` of the queue head: the least execution time among queued
    /// instances, or `None` when the queue is empty.
    pub fn peek_next_due_at(&self) -> (r: Option<u64>)
        ensures
            match r {
                Option::None => self.queue().len() == 0,
                Option::Some(t) => {
                    &&& exists|k: int|
                        0 <= k < self.queue().len() && (#[trigger] self.queue()[k]).exec_at == t
                    &&& forall|j: int|
                        0 <= j < self.queue().len() ==> t <= (#[trigger] self.queue()[j]).exec_at
                },
            },
    {
        self.task_q.peek_next_due_at()
    }

    /// The poll loop's next wake time after draining all due instances: the
    /// queue head's `exec_at`, capped at `now + max_idle` so that an idle
    /// scheduler still wakes periodically.
    pub fn next_wake_at(&self, now: u64, max_idle: u64) -> (t: u64)
        requires
            now + max_idle <= u64::MAX,
        ensures
            t <= now + max_idle,
            forall|j: int|
                0 <= j < self.queue().len() ==> t <= (#[trigger] self.queue()[j]).exec_at,
            t == now + max_idle || exists|k: int|
                0 <= k < self.queue().len() && t == (#[trigger] self.queue()[k]).exec_at,
    {
        let cap = now + max_idle;
        match self.task_q.peek_next_due_at() {
            Option::Some(h) => {
                if h < cap {
                    h
                } else {
                    cap
                }
            },
            Option::None => cap,
        }
    }
}

/// What became of a popped instance once its outcome was reported.
#[derive(Debug, Clone, Copy, PartialEq, Eq, Structural)]
pub enum Completion {
    /// The task was no longer registered when the outcome arrived (it was
    /// killed while the instance was executing): the outcome is ignored.
    TaskGone,
    /// Success of a task marked for drain: the task was removed.
    Drained,
    /// Success of a `Once` task: the task was removed.
    Finished,
    /// Success of an `Interval` task: a new instance was armed.
    Rearmed { exec_at: u64 },
    /// Success of a `DownStream` task: the target was armed immediately.
    Triggered { exec_at: u64 },
    /// Success of a `DownStream` task whose target is no longer registered:
    /// reported, nothing armed, the loop goes on.
    DownstreamMissing,
    /// Failure with retries left: a retry was armed after a backoff.
    RetryScheduled { exec_at: u64, retry_num: u16 },
    /// Failure with no retries left. `removed` says whether the task was also
    /// dropped from the registry (a `Once` task, or one marked for drain:
    /// nothing more would ever run it); an `Interval` task stays registered
    /// and simply goes idle until re-armed by an external event.
    RetriesExhausted { removed: bool },
}

/// Nothing changed.
pub open spec fn state_unchanged(pre: Scheduler, post: Scheduler) -> bool {
    &&& post.registry() == pre.registry()
    &&& post.queue() == pre.queue()
    &&& post.drain_ids() == pre.drain_ids()
    &&& post.next_seq == pre.next_seq
}

/// The task carrying `id` left the scheduler: registry entry removed, queued
/// instances purged, drain mark forgotten.
pub open spec fn removes_task(pre: Scheduler, post: Scheduler, id: Seq<char>) -> bool {
    &&& removed_id(pre.registry(), post.registry(), id)
    &&& post.queue() == purged(pre.queue(), id)
    &&& forall|x: Seq<char>|
        #[trigger] id_in(post.drain_ids(), x) <==> id_in(pre.drain_ids(), x) && x != id
    &&& post.next_seq == pre.next_seq
}

/// A fresh instance of `task` was queued, due at `exec_at` and carrying
/// `retry_num`; nothing else changed.
pub open spec fn arms(
    pre: Scheduler,
    post: Scheduler,
    task: Task,
    exec_at: u64,
    retry_num: u16,
) -> bool {
    &&& post.registry() == pre.registry()
    &&& post.drain_ids() == pre.drain_ids()
    &&& post.queue() == pre.queue().push(post.queue().last())
    &&& is_instance(post.queue().last(), task, exec_at, retry_num, pre.next_seq)
    &&& post.next_seq == pre.next_seq + 1
}

/// The dispatch state machine for a completed instance, case by case:
/// - the task is gone from the registry: ignore the outcome;
/// - success while marked for drain: remove the task, do not re-arm;
/// - success of `Once`: remove the task;
/// - success of `Interval(d)`: re-arm at `now + d` with the retry counter
///   reset;
/// - success of `DownStream(t)`: arm `t` at `now` if registered, otherwise
///   report the missing target and change nothing;
/// - failure with retries left: re-arm at `now + backoff(retry_num)` with
///   `retry_num + 1`;
/// - failure with retries exhausted: remove the task if it is `Once` or
///   marked for drain, otherwise change nothing.
pub open spec fn complete_spec(
    pre: Scheduler,
    post: Scheduler,
    inst: TaskInstance,
    success: bool,
    now: u64,
    c: Completion,
) -> bool {
    let id = inst.task.task_id@;
    if !has_id(pre.registry(), id) {
        c == Completion::TaskGone && state_unchanged(pre, post)
    } else if success {
        if id_in(pre.drain_ids(), id) {
            c == Completion::Drained && removes_task(pre, post, id)
        } else {
            match inst.task.schedule {
                ScheduleType::Once => c == Completion::Finished && removes_task(pre, post, id),
                ScheduleType::Interval(d) => c == (Completion::Rearmed {
                    exec_at: (now + d) as u64,
                }) && arms(pre, post, inst.task, (now + d) as u64, 0u16),
                ScheduleType::DownStream(target) => {
                    if has_id(pre.registry(), target@) {
                        c == (Completion::Triggered { exec_at: now }) && arms(
                            pre,
                            post,
                            task_of(pre.registry(), target@),
                            now,
                            0u16,
                        )
                    } else {
                        c == Completion::DownstreamMissing && state_unchanged(pre, post)
                    }
                },
            }
        }
    } else {
        if inst.retry_num < inst.task.retries {
            c == (Completion::RetryScheduled {
                exec_at: (now + backoff_nanos(inst.retry_num as int)) as u64,
                retry_num: (inst.retry_num + 1) as u16,
            }) && arms(
                pre,
                post,
                inst.task,
                (now + backoff_nanos(inst.retry_num as int)) as u64,
                (inst.retry_num + 1) as u16,
            )
        } else {
            if inst.task.schedule is Once || id_in(pre.drain_ids(), id) {
                c == (Completion::RetriesExhausted { removed: true }) && removes_task(pre, post, id)
            } else {
                c == (Completion::RetriesExhausted { removed: false }) && state_unchanged(pre, post)
            }
        }
    }
}

impl Scheduler {
    /// Apply the outcome of an executed instance: the dispatch state machine
    /// of the poll loop. `inst` must have been popped (it is no longer
    /// queued); `success` is what the command executor reported; `now` is the
    /// completion time. Registry membership is checked first, never assumed,
    /// so an instance whose task was killed mid-execution is a no-op.
    pub fn complete_instance(&mut self, inst: &TaskInstance, success: bool, now: u64) -> (c:
        Completion)
        requires
            old(self).wf(),
            old(self).next_seq < u64::MAX,
            inst.task.schedule matches ScheduleType::Interval(d) ==> now + d <= u64::MAX,
            !success ==> now + backoff_nanos(inst.retry_num as int) <= u64::MAX,
        ensures
            final(self).wf(),
            complete_spec(*old(self), *final(self), *inst, success, now, c),
    {
        if !self.contains_task(&inst.task.task_id) {
            return Completion::TaskGone;
        }
        if success {
            if find_id_index(&self.drain, &inst.task.task_id).is_some() {
                self.remove_task_entirely(&inst.task.task_id);
                return Completion::Drained;
            }
            match &inst.task.schedule {
                ScheduleType::Once => {
                    self.remove_task_entirely(&inst.task.task_id);
                    Completion::Finished
                },
                ScheduleType::Interval(d) => {
                    let at = now + *d;
                    let _ = self.schedule_task(inst.task.clone(), at, 0);
                    Completion::Rearmed { exec_at: at }
                },
                ScheduleType::DownStream(target) => {
                    match self.get_task(target) {
                        Option::Some(t) => {
                            let _ = self.schedule_task(t, now, 0);
                            Completion::Triggered { exec_at: now }
                        },
                        Option::None => Completion::DownstreamMissing,
                    }
                },
            }
        } else {
            if inst.retry_num < inst.task.retries {
                let at = now + backoff(inst.retry_num);
                let rn = inst.retry_num + 1;
                let _ = self.schedule_task(inst.task.clone(), at, rn);
                Completion::RetryScheduled { exec_at: at, retry_num: rn }
            } else {
                let is_once = match &inst.task.schedule {
                    ScheduleType::Once => true,
                    _ => false,
                };
                if is_once || find_id_index(&self.drain, &inst.task.task_id).is_some() {
                    self.remove_task_entirely(&inst.task.task_id);
                    Completion::RetriesExhausted { removed: true }
                } else {
                    Completion::RetriesExhausted { removed: false }
                }
            }
        }
    }
}

/// A `Once` task appears in the registry at most once (`wf` keeps ids
/// unique) and is absent after its first successful completion, whether or
/// not it was marked for drain.
pub proof fn law_once_absent_after_success(
    pre: Scheduler,
    post: Scheduler,
    inst: TaskInstance,
    now: u64,
    c: Completion,
)
    requires
        pre.wf(),
        inst.task.schedule is Once,
        has_id(pre.registry(), inst.task.task_id@),
        complete_spec(pre, post, inst, true, now, c),
    ensures
        !has_id(post.registry(), inst.task.task_id@),
{
}

/// An `Interval(d)` task that completes successfully (and is not marked for
/// drain) is re-armed exactly `d` after the completion time with its retry
/// counter reset, and stays registered; so a task that always succeeds keeps
/// producing executions spaced by `d` until it is drained or killed.
pub proof fn law_interval_rearm(
    pre: Scheduler,
    post: Scheduler,
    inst: TaskInstance,
    now: u64,
    d: u64,
    c: Completion,
)
    requires
        pre.wf(),
        inst.task.schedule == ScheduleType::Interval(d),
        has_id(pre.registry(), inst.task.task_id@),
        !id_in(pre.drain_ids(), inst.task.task_id@),
        now + d <= u64::MAX,
        complete_spec(pre, post, inst, true, now, c),
    ensures
        c == (Completion::Rearmed { exec_at: (now + d) as u64 }),
        arms(pre, post, inst.task, (now + d) as u64, 0u16),
        is_instance(post.queue().last(), inst.task, (now + d) as u64, 0u16, pre.next_seq),
        has_id(post.registry(), inst.task.task_id@),
{
}

/// A failure with retries left re-arms exactly one retry, delayed by
/// `backoff(retry_num)` and carrying `retry_num + 1`, which still satisfies
/// the retry budget; `lemma_backoff_increasing` makes the successive retry
/// delays strictly increasing.
pub proof fn law_retry_armed(
    pre: Scheduler,
    post: Scheduler,
    inst: TaskInstance,
    now: u64,
    c: Completion,
)
    requires
        pre.wf(),
        has_id(pre.registry(), inst.task.task_id@),
        inst.retry_num < inst.task.retries,
        complete_spec(pre, post, inst, false, now, c),
    ensures
        c == (Completion::RetryScheduled {
            exec_at: (now + backoff_nanos(inst.retry_num as int)) as u64,
            retry_num: (inst.retry_num + 1) as u16,
        }),
        arms(
            pre,
            post,
            inst.task,
            (now + backoff_nanos(inst.retry_num as int)) as u64,
            (inst.retry_num + 1) as u16,
        ),
        post.queue().last().retry_num <= inst.task.retries,
{
}

/// When retries are exhausted nothing is re-armed: the arming counter is
/// untouched and the queue gains no instance. An `Interval` task not marked
/// for drain stays registered (it goes idle); a `Once` task, or one marked
/// for drain, is removed.
pub proof fn law_retry_exhausted(
    pre: Scheduler,
    post: Scheduler,
    inst: TaskInstance,
    now: u64,
    c: Completion,
)
    requires
        pre.wf(),
        has_id(pre.registry(), inst.task.task_id@),
        inst.retry_num >= inst.task.retries,
        complete_spec(pre, post, inst, false, now, c),
    ensures
        post.next_seq == pre.next_seq,
        post.queue().len() <= pre.queue().len(),
        inst.task.schedule matches ScheduleType::Interval(d) && !id_in(
            pre.drain_ids(),
            inst.task.task_id@,
        ) ==> state_unchanged(pre, post) && has_id(post.registry(), inst.task.task_id@),
{
    if inst.task.schedule is Once || id_in(pre.drain_ids(), inst.task.task_id@) {
        crate::queue::lemma_purged_elems(pre.queue(), inst.task.task_id@);
    }
}

/// Draining a task mid-retry does not stop the remaining retries: a failure
/// with retries left re-arms the retry even when the id is marked for drain,
/// and the task stays registered.
pub proof fn law_drain_keeps_retries(
    pre: Scheduler,
    post: Scheduler,
    inst: TaskInstance,
    now: u64,
    c: Completion,
)
    requires
        pre.wf(),
        has_id(pre.registry(), inst.task.task_id@),
        id_in(pre.drain_ids(), inst.task.task_id@),
        inst.retry_num < inst.task.retries,
        complete_spec(pre, post, inst, false, now, c),
    ensures
        has_id(post.registry(), inst.task.task_id@),
        arms(
            pre,
            post,
            inst.task,
            (now + backoff_nanos(inst.retry_num as int)) as u64,
            (inst.retry_num + 1) as u16,
        ),
        c == (Completion::RetryScheduled {
            exec_at: (now + backoff_nanos(inst.retry_num as int)) as u64,
            retry_num: (inst.retry_num + 1) as u16,
        }),
{
}

/// The drained task is removed exactly on a success: a successful completion
/// of a task marked for drain removes it from the registry and from the
/// drain set, and re-arms nothing.
pub proof fn law_drain_removed_on_success(
    pre: Scheduler,
    post: Scheduler,
    inst: TaskInstance,
    now: u64,
    c: Completion,
)
    requires
        pre.wf(),
        has_id(pre.registry(), inst.task.task_id@),
        id_in(pre.drain_ids(), inst.task.task_id@),
        complete_spec(pre, post, inst, true, now, c),
    ensures
        c == Completion::Drained,
        !has_id(post.registry(), inst.task.task_id@),
        !id_in(post.drain_ids(), inst.task.task_id@),
        post.next_seq == pre.next_seq,
{
}

/// After a kill (or any full removal), the registry no longer holds the id,
/// no queued instance of the task remains, and every queued instance of
/// another task survives the purge.
pub proof fn law_kill_purges(pre: Scheduler, post: Scheduler, id: Seq<char>)
    requires
        removed_id(pre.registry(), post.registry(), id),
        post.queue() == purged(pre.queue(), id),
    ensures
        !has_id(post.registry(), id),
        forall|k: int|
            0 <= k < post.queue().len() ==> (#[trigger] post.queue()[k]).task.task_id@ != id,
        forall|m: int|
            0 <= m < pre.queue().len() && (#[trigger] pre.queue()[m]).task.task_id@ != id
                ==> post.queue().contains(pre.queue()[m]),
{
    crate::queue::lemma_purged_elems(pre.queue(), id);
}

} // verus!
