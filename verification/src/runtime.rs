//! The task runtime: task identifiers, the queue of sleeping tasks, and the
//! sleep and interval timers.

use vstd::prelude::*;
use core::task::Waker;
use std::collections::BTreeMap;
use crate::arch::pit::Pit;
use crate::sync::queue::{timers_pop_first, wake};

pub mod executor;

verus! {

broadcast use {vstd::std_specs::btree::group_btree_axioms, vstd::laws_cmp::group_laws_cmp};

/// The identifier of a task.
#[derive(Debug, Clone, Copy, PartialEq, Eq, Structural)]
pub struct TaskId(pub u64);

impl TaskId {
    /// The next identifier of `ids`: one that no task has yet.
    pub fn new(ids: &mut TaskIds) -> (id: TaskId)
        requires
            old(ids).next() < u64::MAX,
        ensures
            id.0 == old(ids).next(),
            final(ids).next() == old(ids).next() + 1,
    {
        ids.fresh()
    }
}

/// The source of task identifiers: each is handed out once, in rising
/// order.
pub struct TaskIds {
    next: u64,
}

impl TaskIds {
    /// The identifier that is handed out next.
    pub closed spec fn next(&self) -> u64 {
        self.next
    }

    /// A source that starts at zero.
    pub fn new() -> (r: Self)
        ensures
            r.next() == 0,
    {
        TaskIds { next: 0 }
    }

    /// Whether an identifier is left to hand out.
    pub fn has_next(&self) -> (r: bool)
        ensures
            r == (self.next() < u64::MAX),
    {
        self.next < u64::MAX
    }

    /// Hands out the next identifier.
    pub fn fresh(&mut self) -> (id: TaskId)
        requires
            old(self).next() < u64::MAX,
        ensures
            id.0 == old(self).next(),
            final(self).next() == old(self).next() + 1,
    {
        let id = TaskId(self.next);
        self.next = self.next + 1;
        id
    }
}

/// The deadlines of `s` that are still in the future at `now`.
pub open spec fn still_asleep(s: Set<u64>, now: u64) -> Set<u64> {
    s.filter(|d: u64| d > now)
}

/// Whether `d` is the earliest deadline of `s`.
pub open spec fn earliest(s: Set<u64>, d: u64) -> bool {
    s.contains(d) && forall|e: u64| s.contains(e) ==> d <= e
}

/// What the timer watches once the due sleepers are woken: the earliest
/// deadline left; nothing, where sleepers were woken and none is left; and
/// what it watched before, where nothing was there to wake.
pub open spec fn watches(left: Set<u64>, woken: nat, before: u64, after: u64) -> bool {
    if exists|d: u64| left.contains(d) {
        earliest(left, after)
    } else if woken > 0 {
        after == 0
    } else {
        after == before
    }
}

/// How the sleepers `after` follow from the sleepers `before` when, at the
/// millisecond `now`, a task is put to sleep until `due_at` and what is due is
/// woken: left are the old deadlines and `due_at`, as far as they are still
/// in the future.
pub open spec fn slept(before: Set<u64>, after: Set<u64>, due_at: u64, now: u64) -> bool {
    after == still_asleep(before.insert(due_at), now)
}

/// The tasks that sleep, each under the millisecond at which it is due. One
/// task sleeps under each deadline.
pub struct TimerQueue {
    timers: BTreeMap<u64, Waker>,
}

impl TimerQueue {
    /// The deadlines under which tasks sleep.
    pub closed spec fn view(&self) -> Set<u64> {
        self.timers@.dom()
    }

    /// Only finitely many tasks sleep.
    pub proof fn lemma_finite(&self)
        ensures
            self@.finite(),
    {
    }

    /// A queue in which nothing sleeps.
    pub fn new() -> (r: Self)
        ensures
            r@ == Set::<u64>::empty(),
    {
        let r = TimerQueue { timers: BTreeMap::new() };
        assert(r@ =~= Set::<u64>::empty());
        r
    }

    /// How many tasks sleep.
    pub fn len(&self) -> (r: usize)
        ensures
            r == self@.len(),
    {
        self.timers.len()
    }

    /// Puts a task to sleep until `due_at`. A task that slept under the same
    /// deadline is replaced.
    pub fn insert(&mut self, due_at: u64, waker: Waker)
        ensures
            final(self)@ == old(self)@.insert(due_at),
    {
        self.timers.insert(due_at, waker);
        assert(self@ =~= old(self)@.insert(due_at));
    }

    /// Wakes every task whose deadline the timer has reached, earliest
    /// first, and returns how many. The timer's deadline becomes that of the
    /// earliest task left, and is cleared when a task was woken and none is
    /// left.
    pub fn wake_tasks(&mut self, pit: &mut Pit) -> (woken: usize)
        requires
            old(pit).wf(),
        ensures
            final(pit).wf(),
            final(pit).freq() == old(pit).freq(),
            final(pit).spec_ticks() == old(pit).spec_ticks(),
            final(self)@ == still_asleep(old(self)@, old(pit).millis()),
            woken == old(self)@.len() - final(self)@.len(),
            watches(final(self)@, woken as nat, old(pit).deadline(), final(pit).deadline()),
    {
        let current_milis: u64 = pit.get_milis();
        let total: usize = self.timers.len();
        let mut woken: usize = 0;
        loop
            invariant_except_break
                pit.deadline() == if woken > 0 {
                    0
                } else {
                    old(pit).deadline()
                },
            invariant
                pit.wf(),
                pit.freq() == old(pit).freq(),
                pit.spec_ticks() == old(pit).spec_ticks(),
                current_milis == old(pit).millis(),
                total == old(self)@.len(),
                woken + self@.len() == old(self)@.len(),
                forall|d: u64| self@.contains(d) ==> old(self)@.contains(d),
                forall|d: u64| old(self)@.contains(d) && d > current_milis ==> self@.contains(d),
            ensures
                pit.wf(),
                pit.freq() == old(pit).freq(),
                pit.spec_ticks() == old(pit).spec_ticks(),
                self@ == still_asleep(old(self)@, old(pit).millis()),
                woken == old(self)@.len() - self@.len(),
                watches(self@, woken as nat, old(pit).deadline(), pit.deadline()),
            decreases self@.len(),
        {
            let ghost before = self@;
            match timers_pop_first(&mut self.timers) {
                None => {
                    assert(self@ =~= still_asleep(old(self)@, current_milis));
                    break ;
                },
                Some((k, waker)) => {
                    assert(self@ =~= before.remove(k));
                    if k > current_milis {
                        pit.notify_in(k as u128);
                        self.timers.insert(k, waker);
                        assert(self@ =~= before);
                        assert(self@ =~= still_asleep(old(self)@, current_milis));
                        assert(self@.contains(k));
                        break ;
                    }
                    wake(waker);
                    pit.reset_notify();
                    woken = woken + 1;
                },
            }
        }
        woken
    }

    /// Puts a task to sleep until `due_at`, and wakes at once what is due, the
    /// task itself included where `due_at` is reached already. The caller has
    /// interrupts disabled around the call.
    pub fn push_timer(&mut self, due_at: u64, waker: Waker, pit: &mut Pit) -> (woken: usize)
        requires
            old(pit).wf(),
        ensures
            final(pit).wf(),
            final(pit).freq() == old(pit).freq(),
            final(pit).spec_ticks() == old(pit).spec_ticks(),
            slept(old(self)@, final(self)@, due_at, old(pit).millis()),
            woken == old(self)@.insert(due_at).len() - final(self)@.len(),
            watches(final(self)@, woken as nat, old(pit).deadline(), final(pit).deadline()),
    {
        self.insert(due_at, waker);
        self.wake_tasks(pit)
    }
}

/// After the due tasks were woken, none that sleeps on is due, and every
/// task whose deadline was reached has been woken: it sleeps no longer, and
/// at least one task was woken.
pub proof fn lemma_wake_leaves_none_due(s: Set<u64>, now: u64, d: u64)
    requires
        s.finite(),
        s.contains(d),
        d <= now,
    ensures
        !still_asleep(s, now).contains(d),
        forall|e: u64| still_asleep(s, now).contains(e) ==> e > now,
        s.len() - still_asleep(s, now).len() >= 1,
{
    assert(still_asleep(s, now).subset_of(s.remove(d)));
    vstd::set_lib::lemma_len_subset(still_asleep(s, now), s.remove(d));
}

/// A task's sleep: the millisecond at which it ends.
pub struct Sleep {
    yield_at: u64,
}

impl Sleep {
    /// The millisecond at which the sleep ends.
    pub closed spec fn until(&self) -> u64 {
        self.yield_at
    }

    /// A sleep of `period` milliseconds from now; it ends at the last
    /// millisecond that can be counted where that would be passed.
    pub fn new(period: u64, pit: &Pit) -> (r: Self)
        requires
            pit.wf(),
        ensures
            r.until() == if pit.millis() + period > u64::MAX {
                u64::MAX
            } else {
                (pit.millis() + period) as u64
            },
    {
        Sleep { yield_at: pit.get_milis().saturating_add(period) }
    }

    /// A sleep that ends at `until`.
    pub fn until_millis(until: u64) -> (r: Self)
        ensures
            r.until() == until,
    {
        Sleep { yield_at: until }
    }

    /// The millisecond at which the sleep ends.
    pub fn deadline(&self) -> (r: u64)
        ensures
            r == self.until(),
    {
        self.yield_at
    }

    /// Polls the sleep: it is over once its deadline is reached; until then
    /// the task is put into the queue of sleepers under its deadline, every
    /// other sleeper that is not yet due stays, and the timer watches the
    /// earliest deadline left.
    pub fn poll(&self, waker: Waker, timers: &mut TimerQueue, pit: &mut Pit) -> (ready: bool)
        requires
            old(pit).wf(),
        ensures
            final(pit).wf(),
            ready == (old(pit).millis() >= self.until()),
            ready ==> final(timers)@ == old(timers)@ && final(pit).deadline() == old(
                pit,
            ).deadline(),
            !ready ==> slept(old(timers)@, final(timers)@, self.until(), old(pit).millis()),
            !ready ==> earliest(final(timers)@, final(pit).deadline()),
            final(pit).freq() == old(pit).freq(),
            final(pit).spec_ticks() == old(pit).spec_ticks(),
    {
        let current_milis: u64 = pit.get_milis();
        if current_milis >= self.yield_at {
            return true;
        }
        timers.push_timer(self.yield_at, waker, pit);
        assert(timers@.contains(self.yield_at));
        false
    }
}

/// A timer that fires once per period, without drift.
pub struct Interval {
    period: u64,
    timer: Sleep,
}

impl Interval {
    /// The period in milliseconds.
    pub closed spec fn period(&self) -> u64 {
        self.period
    }

    /// The millisecond at which the interval fires next.
    pub closed spec fn next_at(&self) -> u64 {
        self.timer.until()
    }

    /// An interval of `period` milliseconds that first fires one period from
    /// now.
    pub fn new(period: u64, pit: &Pit) -> (r: Self)
        requires
            pit.wf(),
        ensures
            r.period() == period,
            r.next_at() == if pit.millis() + period > u64::MAX {
                u64::MAX
            } else {
                (pit.millis() + period) as u64
            },
    {
        Interval { timer: Sleep::new(period, pit), period }
    }

    /// Polls the interval. Once its deadline is reached it fires, and the
    /// next deadline is one period after the last, not after now.
    pub fn tick(&mut self, waker: Waker, timers: &mut TimerQueue, pit: &mut Pit) -> (fired: bool)
        requires
            old(pit).wf(),
        ensures
            final(pit).wf(),
            fired == (old(pit).millis() >= old(self).next_at()),
            final(self).period() == old(self).period(),
            final(self).next_at() == if !fired {
                old(self).next_at()
            } else if old(self).next_at() + old(self).period() > u64::MAX {
                u64::MAX
            } else {
                (old(self).next_at() + old(self).period()) as u64
            },
            !fired ==> slept(
                old(timers)@,
                final(timers)@,
                old(self).next_at(),
                old(pit).millis(),
            ),
            !fired ==> earliest(final(timers)@, final(pit).deadline()),
            fired ==> final(timers)@ == old(timers)@ && final(pit).deadline() == old(
                pit,
            ).deadline(),
            final(pit).freq() == old(pit).freq(),
            final(pit).spec_ticks() == old(pit).spec_ticks(),
    {
        if !self.timer.poll(waker, timers, pit) {
            return false;
        }
        self.timer = Sleep::until_millis(self.timer.deadline().saturating_add(self.period));
        true
    }
}

} // verus!
