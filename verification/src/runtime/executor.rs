//! The executor's bookkeeping: which tasks live, and which are ready to be
//! polled, in the order they became ready.

use vstd::prelude::*;
use std::collections::BTreeSet;
use crossbeam_queue::ArrayQueue;
use crate::runtime::TaskId;
use crate::sync::queue::{
    array_cap, array_capacity, array_items, array_len, array_new, array_pop, array_push,
};

verus! {

broadcast use {vstd::std_specs::btree::group_btree_axioms, vstd::laws_cmp::group_laws_cmp};

/// The capacity of the run queue.
pub const RUN_QUEUE_CAPACITY: usize = 0xff;

/// How many identifiers at the head of `queue` belong to none of `tasks`.
pub open spec fn gone_count(queue: Seq<u64>, tasks: Set<u64>) -> nat
    decreases queue.len(),
{
    if queue.len() == 0 || tasks.contains(queue[0]) {
        0
    } else {
        1 + gone_count(queue.subrange(1, queue.len() as int), tasks)
    }
}

/// How often `id` stands in `queue`.
pub open spec fn occurrences(queue: Seq<u64>, id: u64) -> nat
    decreases queue.len(),
{
    if queue.len() == 0 {
        0
    } else {
        (if queue[0] == id {
            1nat
        } else {
            0nat
        }) + occurrences(queue.subrange(1, queue.len() as int), id)
    }
}

/// An identifier put at the end of the queue stands in it once more, and
/// every other identifier as often as before.
pub proof fn lemma_occurrences_push(queue: Seq<u64>, x: u64, id: u64)
    ensures
        occurrences(queue.push(x), id) == occurrences(queue, id) + if x == id {
            1nat
        } else {
            0nat
        },
    decreases queue.len(),
{
    if queue.len() == 0 {
        assert(queue.push(x).subrange(1, 1) =~= Seq::<u64>::empty());
        assert(occurrences(queue.push(x).subrange(1, 1), id) == 0);
    } else {
        let rest = queue.subrange(1, queue.len() as int);
        lemma_occurrences_push(rest, x, id);
        assert(queue.push(x).subrange(1, queue.len() as int + 1) =~= rest.push(x));
    }
}

/// The first identifier of the queue that is not passed over belongs to a
/// task that the executor owns.
pub proof fn lemma_next_is_owned(queue: Seq<u64>, tasks: Set<u64>)
    ensures
        gone_count(queue, tasks) <= queue.len(),
        gone_count(queue, tasks) < queue.len() ==> tasks.contains(
            queue[gone_count(queue, tasks) as int],
        ),
    decreases queue.len(),
{
    if queue.len() > 0 && !tasks.contains(queue[0]) {
        let rest = queue.subrange(1, queue.len() as int);
        lemma_next_is_owned(rest, tasks);
    }
}

/// Where every identifier of the queue is passed over, no task that the
/// executor owns stands in it.
pub proof fn lemma_all_gone(queue: Seq<u64>, tasks: Set<u64>, id: u64)
    requires
        tasks.contains(id),
        gone_count(queue, tasks) >= queue.len(),
    ensures
        occurrences(queue, id) == 0,
    decreases queue.len(),
{
    if queue.len() > 0 {
        lemma_all_gone(queue.subrange(1, queue.len() as int), tasks, id);
    }
}

/// Taking the next task off the queue takes one occurrence of its
/// identifier with it, and none of any other task that the executor owns:
/// what is passed over belongs to tasks that are gone.
pub proof fn lemma_occurrences_after_next(queue: Seq<u64>, tasks: Set<u64>, id: u64)
    requires
        tasks.contains(id),
        gone_count(queue, tasks) < queue.len(),
    ensures
        occurrences(
            queue.subrange(gone_count(queue, tasks) as int + 1, queue.len() as int),
            id,
        ) + (if queue[gone_count(queue, tasks) as int] == id {
            1nat
        } else {
            0nat
        }) == occurrences(queue, id),
    decreases queue.len(),
{
    let rest = queue.subrange(1, queue.len() as int);
    if tasks.contains(queue[0]) {
        assert(gone_count(queue, tasks) == 0);
    } else {
        lemma_occurrences_after_next(rest, tasks, id);
        let k = gone_count(rest, tasks) as int;
        assert(rest.subrange(k + 1, rest.len() as int) =~= queue.subrange(
            k + 2,
            queue.len() as int,
        ));
        assert(rest[k] == queue[k + 1]);
    }
}

/// The executor: the identifiers of the tasks it owns, and the run queue.
/// The futures themselves live with the caller, under the same
/// identifiers.
pub struct Executor {
    tasks: BTreeSet<u64>,
    task_queue: ArrayQueue<u64>,
}

impl Executor {
    /// The identifiers of the tasks that the executor owns.
    pub closed spec fn tasks(&self) -> Set<u64> {
        self.tasks@
    }

    /// The run queue: the identifiers to poll, the next one first.
    pub closed spec fn queue(&self) -> Seq<u64> {
        array_items(self.task_queue)
    }

    /// The capacity of the run queue.
    pub closed spec fn capacity(&self) -> nat {
        array_capacity(self.task_queue)
    }

    /// The run queue is within its capacity.
    pub closed spec fn wf(&self) -> bool {
        array_items(self.task_queue).len() <= array_capacity(self.task_queue)
    }

    /// An executor without tasks.
    pub fn new() -> (r: Self)
        ensures
            r.wf(),
            r.tasks() == Set::<u64>::empty(),
            r.queue().len() == 0,
            r.capacity() == 0xff,
    {
        Executor { tasks: BTreeSet::new(), task_queue: array_new(RUN_QUEUE_CAPACITY) }
    }

    /// Whether the executor owns the task `id`.
    pub fn has_task(&self, id: TaskId) -> (r: bool)
        ensures
            r == self.tasks().contains(id.0),
    {
        self.tasks.contains(&id.0)
    }

    /// Whether the run queue is full.
    pub fn queue_is_full(&self) -> (r: bool)
        requires
            self.wf(),
        ensures
            r == (self.queue().len() >= self.capacity()),
    {
        array_len(&self.task_queue) >= array_cap(&self.task_queue)
    }

    /// Whether nothing is ready to be polled. The caller asks with
    /// interrupts disabled, and halts until the next interrupt if so.
    pub fn is_idle(&self) -> (r: bool)
        ensures
            r == (self.queue().len() == 0),
    {
        array_len(&self.task_queue) == 0
    }

    /// Takes ownership of the task `id` and makes it ready.
    pub fn spawn(&mut self, id: TaskId)
        requires
            old(self).wf(),
            !old(self).tasks().contains(id.0),
            old(self).queue().len() < old(self).capacity(),
        ensures
            final(self).wf(),
            final(self).tasks() == old(self).tasks().insert(id.0),
            final(self).queue() == old(self).queue().push(id.0),
            final(self).capacity() == old(self).capacity(),
    {
        self.tasks.insert(id.0);
        let _ = array_push(&mut self.task_queue, id.0);
    }

    /// Makes the task `id` ready: what a task's waker does.
    pub fn wake(&mut self, id: TaskId)
        requires
            old(self).wf(),
            old(self).queue().len() < old(self).capacity(),
        ensures
            final(self).wf(),
            final(self).tasks() == old(self).tasks(),
            final(self).queue() == old(self).queue().push(id.0),
            final(self).capacity() == old(self).capacity(),
    {
        let _ = array_push(&mut self.task_queue, id.0);
    }

    /// The next task to poll: the first in the run queue that the executor
    /// owns. Identifiers before it, of tasks that are gone, are skipped.
    /// Nothing is returned once the queue is empty.
    pub fn next_ready(&mut self) -> (r: Option<TaskId>)
        requires
            old(self).wf(),
        ensures
            final(self).wf(),
            final(self).tasks() == old(self).tasks(),
            final(self).capacity() == old(self).capacity(),
            ({
                let skipped = gone_count(old(self).queue(), old(self).tasks());
                if skipped < old(self).queue().len() {
                    &&& r == Some(TaskId(old(self).queue()[skipped as int]))
                    &&& final(self).queue() == old(self).queue().subrange(
                        skipped as int + 1,
                        old(self).queue().len() as int,
                    )
                } else {
                    r is None && final(self).queue().len() == 0
                }
            }),
    {
        let ghost mut skipped: int = 0;
        loop
            invariant
                self.wf(),
                self.tasks() == old(self).tasks(),
                self.capacity() == old(self).capacity(),
                0 <= skipped <= old(self).queue().len(),
                self.queue() == old(self).queue().subrange(skipped, old(self).queue().len() as int),
                skipped + gone_count(self.queue(), self.tasks()) == gone_count(
                    old(self).queue(),
                    old(self).tasks(),
                ),
            decreases self.queue().len(),
        {
            let ghost before = self.queue();
            match array_pop(&mut self.task_queue) {
                Some(tid) => {
                    assert(tid == old(self).queue()[skipped]);
                    assert(self.queue() =~= old(self).queue().subrange(
                        skipped + 1,
                        old(self).queue().len() as int,
                    ));
                    assert(self.queue() == before.subrange(1, before.len() as int));
                    if self.has_task(TaskId(tid)) {
                        return Some(TaskId(tid));
                    }
                    proof {
                        skipped = skipped + 1;
                    }
                },
                None => {
                    return None;
                },
            }
        }
    }

    /// Gives up the task `id`, which ran to completion.
    pub fn complete(&mut self, id: TaskId)
        requires
            old(self).wf(),
        ensures
            final(self).wf(),
            final(self).tasks() == old(self).tasks().remove(id.0),
            final(self).queue() == old(self).queue(),
            final(self).capacity() == old(self).capacity(),
    {
        self.tasks.remove(&id.0);
    }

    /// Runs the executor until nothing is ready, with the task `id` among
    /// other tasks, and returns how often `id` was polled.
    ///
    /// The task `id` yields `yields` times: each of its polls but the last
    /// wakes the task itself and leaves it pending, the last completes it.
    /// Each poll of another task takes the next entry of `others`: where it
    /// is true, that task yields in the same way; where it is false, or no
    /// entry is left, that task completes. Whatever the other tasks do, a
    /// task that yields n times is polled n + 1 times.
    pub fn run_counting(&mut self, id: TaskId, yields: u64, others: &Vec<bool>) -> (polls: u64)
        requires
            old(self).wf(),
            old(self).tasks().contains(id.0),
            occurrences(old(self).queue(), id.0) == 1,
            yields < u64::MAX,
        ensures
            final(self).wf(),
            polls == yields + 1,
            !final(self).tasks().contains(id.0),
            final(self).tasks().subset_of(old(self).tasks()),
            final(self).queue().len() == 0,
            final(self).capacity() == old(self).capacity(),
    {
        let mut polls: u64 = 0;
        let mut left: u64 = yields;
        let mut alive: bool = true;
        let mut used: usize = 0;
        loop
            invariant_except_break
                alive == self.tasks().contains(id.0),
                alive ==> occurrences(self.queue(), id.0) == 1 && polls + left == yields,
                !alive ==> polls == yields + 1 && left == 0,
            invariant
                self.wf(),
                self.capacity() == old(self).capacity(),
                self.tasks().subset_of(old(self).tasks()),
                yields < u64::MAX,
                used <= others.len(),
            ensures
                self.wf(),
                self.capacity() == old(self).capacity(),
                self.tasks().subset_of(old(self).tasks()),
                polls == yields + 1,
                !self.tasks().contains(id.0),
                self.queue().len() == 0,
            decreases left, others.len() - used, self.queue().len(),
        {
            let ghost before = self.queue();
            let ghost owned = self.tasks();
            proof {
                lemma_next_is_owned(before, owned);
                if alive && gone_count(before, owned) < before.len() {
                    lemma_occurrences_after_next(before, owned, id.0);
                }
                if alive && gone_count(before, owned) >= before.len() {
                    lemma_all_gone(before, owned, id.0);
                }
            }
            let next = match self.next_ready() {
                Some(t) => t,
                None => {
                    break ;
                },
            };
            let ghost taken = self.queue();
            proof {
                lemma_occurrences_push(taken, next.0, id.0);
            }
            if next.0 == id.0 {
                polls = polls + 1;
                if left == 0 {
                    self.complete(id);
                    alive = false;
                } else {
                    self.wake(id);
                    left = left - 1;
                }
            } else if used < others.len() {
                let again: bool = others[used];
                used = used + 1;
                if again {
                    self.wake(next);
                } else {
                    self.complete(next);
                }
            } else {
                self.complete(next);
            }
        }
        polls
    }

    /// Runs, to its end, a task that yields `yields` times: each poll but
    /// the last wakes the task itself and leaves it pending. Returns how
    /// often the task was polled.
    ///
    /// A task that yields n times is polled n + 1 times.
    pub fn run_yielding(&mut self, id: TaskId, yields: u64) -> (polls: u64)
        requires
            old(self).wf(),
            old(self).tasks() == Set::<u64>::empty(),
            old(self).queue().len() == 0,
            old(self).capacity() > 0,
            yields < u64::MAX,
        ensures
            final(self).wf(),
            polls == yields + 1,
            final(self).tasks() == Set::<u64>::empty(),
            final(self).queue().len() == 0,
    {
        self.spawn(id);
        let mut polls: u64 = 0;
        let mut left: u64 = yields;
        loop
            invariant_except_break
                self.tasks() == Set::<u64>::empty().insert(id.0),
                self.queue() == seq![id.0],
                polls + left == yields,
            invariant
                self.wf(),
                self.capacity() == old(self).capacity(),
                self.capacity() > 0,
                yields < u64::MAX,
            ensures
                self.wf(),
                polls == yields + 1,
                self.tasks() == Set::<u64>::empty(),
                self.queue().len() == 0,
            decreases left,
        {
            let ghost before = self.queue();
            proof {
                assert(before.len() == 1);
                assert(self.tasks().contains(before[0]));
                assert(gone_count(before, self.tasks()) == 0);
            }
            let next = self.next_ready();
            assert(next == Some(id));
            assert(self.queue().len() == 0);
            polls = polls + 1;
            if left == 0 {
                self.complete(id);
                assert(self.tasks() =~= Set::<u64>::empty());
                break ;
            }
            self.wake(id);
            assert(self.queue() =~= seq![id.0]);
            left = left - 1;
        }
        polls
    }
}

} // verus!
