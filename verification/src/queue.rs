use vstd::prelude::*;

use crate::task::{TaskId, TaskInstance};

verus! {

/// Priority order on instances: earlier `exec_at` first, ties broken by the
/// arming sequence number, so that the head of the queue is deterministic.
pub open spec fn inst_le(a: TaskInstance, b: TaskInstance) -> bool {
    a.exec_at < b.exec_at || (a.exec_at == b.exec_at && a.seq_no <= b.seq_no)
}

/// The queue contents without the instances of the given task id, in order.
pub open spec fn purged(q: Seq<TaskInstance>, id: Seq<char>) -> Seq<TaskInstance>
    decreases q.len(),
{
    if q.len() == 0 {
        q
    } else {
        let rest = purged(q.drop_last(), id);
        if q.last().task.task_id@ == id {
            rest
        } else {
            rest.push(q.last())
        }
    }
}

/// What survives a purge: no instance of the purged id is left, every survivor
/// was queued before, and every queued instance of another id survives.
pub proof fn lemma_purged_elems(q: Seq<TaskInstance>, id: Seq<char>)
    ensures
        purged(q, id).len() <= q.len(),
        forall|k: int|
            0 <= k < purged(q, id).len() ==> #[trigger] purged(q, id)[k].task.task_id@ != id,
        forall|k: int|
            0 <= k < purged(q, id).len() ==> exists|m: int|
                0 <= m < q.len() && #[trigger] purged(q, id)[k] == q[m],
        forall|m: int|
            0 <= m < q.len() && #[trigger] q[m].task.task_id@ != id ==> purged(q, id).contains(
                q[m],
            ),
    decreases q.len(),
{
    if q.len() > 0 {
        lemma_purged_elems(q.drop_last(), id);
        assert forall|m: int|
            0 <= m < q.len() && #[trigger] q[m].task.task_id@ != id implies purged(
            q,
            id,
        ).contains(q[m]) by {
            if m < q.len() - 1 {
                assert(q.drop_last()[m] == q[m]);
                let w = choose|w: int|
                    0 <= w < purged(q.drop_last(), id).len() && purged(q.drop_last(), id)[w] == q[m];
                assert(purged(q, id)[w] == q[m]);
            } else {
                assert(purged(q, id).last() == q[m]);
            }
        }
    }
}

/// Popping repeatedly yields a non-decreasing sequence of `exec_at`: when
/// `i1` is popped from a queue (`i1` least, taken out at `k1`) and `i2` is
/// then popped from what remains, `i1.exec_at <= i2.exec_at`.
pub proof fn law_pop_monotonic(
    q0: Seq<TaskInstance>,
    i1: TaskInstance,
    k1: int,
    i2: TaskInstance,
    k2: int,
)
    requires
        0 <= k1 < q0.len(),
        i1 == q0[k1],
        forall|j: int| 0 <= j < q0.len() ==> inst_le(i1, #[trigger] q0[j]),
        0 <= k2 < q0.remove(k1).len(),
        i2 == q0.remove(k1)[k2],
    ensures
        i1.exec_at <= i2.exec_at,
{
    q0.remove_ensures(k1);
    if k2 < k1 {
        assert(i2 == q0[k2]);
    } else {
        assert(i2 == q0[k2 + 1]);
    }
}

/// A min-priority queue of task instances keyed by `exec_at`, earliest first.
/// The instances are held in an unordered vector; `pop_if_due` and
/// `peek_next_due_at` select the minimum under `inst_le`.
pub struct ExecQueue {
    pub items: Vec<TaskInstance>,
}

impl View for ExecQueue {
    type V = Seq<TaskInstance>;

    open spec fn view(&self) -> Seq<TaskInstance> {
        self.items@
    }
}

impl ExecQueue {
    /// Create an empty queue.
    pub fn new() -> (q: Self)
        ensures
            q@ == Seq::<TaskInstance>::empty(),
    {
        ExecQueue { items: Vec::new() }
    }

    /// How many instances are queued.
    pub fn len(&self) -> (n: usize)
        ensures
            n == self@.len(),
    {
        self.items.len()
    }

    /// Add an instance to the queue.
    pub fn push(&mut self, inst: TaskInstance)
        ensures
            final(self)@ == old(self)@.push(inst),
    {
        self.items.push(inst);
    }

    /// The position of the least queued instance under `inst_le`.
    fn min_index(&self) -> (k: usize)
        requires
            self@.len() > 0,
        ensures
            k < self@.len(),
            forall|j: int| 0 <= j < self@.len() ==> inst_le(self@[k as int], #[trigger] self@[j]),
    {
        let mut k: usize = 0;
        let mut i: usize = 1;
        while i < self.items.len()
            invariant
                0 < i <= self@.len(),
                k < i,
                forall|j: int| 0 <= j < i ==> inst_le(self@[k as int], #[trigger] self@[j]),
            decreases self@.len() - i,
        {
            if self.items[i].exec_at < self.items[k].exec_at || (self.items[i].exec_at
                == self.items[k].exec_at && self.items[i].seq_no < self.items[k].seq_no) {
                k = i;
            }
            i = i + 1;
        }
        k
    }

    /// Pop the earliest-due instance, but only if it is due at `now`
    /// (`exec_at <= now`). The queue head always has the least `exec_at`
    /// among queued instances, so what is popped is the minimum.
    pub fn pop_if_due(&mut self, now: u64) -> (r: Option<TaskInstance>)
        ensures
            match r {
                Option::None => final(self)@ == old(self)@ && forall|j: int|
                    0 <= j < old(self)@.len() ==> #[trigger] old(self)@[j].exec_at > now,
                Option::Some(inst) => {
                    &&& inst.exec_at <= now
                    &&& final(self)@.len() == old(self)@.len() - 1
                    &&& forall|j: int|
                        0 <= j < old(self)@.len() ==> inst_le(inst, #[trigger] old(self)@[j])
                    &&& exists|k: int|
                        0 <= k < old(self)@.len() && inst == old(self)@[k] && final(self)@ == old(
                            self,
                        )@.remove(k)
                },
            },
    {
        if self.items.len() == 0 {
            return None;
        }
        let k = self.min_index();
        if self.items[k].exec_at <= now {
            let inst = self.items.remove(k);
            Some(inst)
        } else {
            None
        }
    }

    /// The `exec_at` of the queue head: the least execution time among queued
    /// instances, or `None` when the queue is empty. Used to compute the poll
    /// loop's next wake time.
    pub fn peek_next_due_at(&self) -> (r: Option<u64>)
        ensures
            match r {
                Option::None => self@.len() == 0,
                Option::Some(t) => {
                    &&& exists|k: int| 0 <= k < self@.len() && #[trigger] self@[k].exec_at == t
                    &&& forall|j: int| 0 <= j < self@.len() ==> t <= #[trigger] self@[j].exec_at
                },
            },
    {
        if self.items.len() == 0 {
            return None;
        }
        let k = self.min_index();
        Some(self.items[k].exec_at)
    }

    /// Remove every queued instance of the given task id.
    pub fn purge_id(&mut self, id: &TaskId)
        ensures
            final(self)@ == purged(old(self)@, id@),
    {
        let mut kept: Vec<TaskInstance> = Vec::new();
        let mut i: usize = 0;
        while i < self.items.len()
            invariant
                i <= self.items@.len(),
                self.items@ == old(self)@,
                kept@ == purged(self.items@.subrange(0, i as int), id@),
            decreases self.items@.len() - i,
        {
            let ghost prefix = self.items@.subrange(0, i as int);
            if self.items[i].task.task_id == *id {
            } else {
                kept.push(self.items[i].clone());
            }
            proof {
                let longer = self.items@.subrange(0, i + 1 as int);
                assert(longer.drop_last() =~= prefix);
                assert(longer.last() == self.items@[i as int]);
            }
            i = i + 1;
        }
        proof {
            assert(self.items@.subrange(0, self.items@.len() as int) =~= self.items@);
        }
        self.items = kept;
    }
}

} // verus!
