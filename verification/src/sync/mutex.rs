//! The lock word of the async mutex and the tasks that wait for it.

use vstd::prelude::*;
use core::task::Waker;
use crate::sync::waker_set::WakerSet;

verus! {

/// An async mutex: whether it is held, and who waits for it. The value it
/// guards lives with the caller.
pub struct Mutex {
    lock: bool,
    wakers: WakerSet,
}

/// The proof of having locked a mutex. Giving it back with `Mutex::unlock`
/// releases the lock.
pub struct MutexGuard {}

impl Mutex {
    /// Whether the mutex is held.
    pub closed spec fn locked(&self) -> bool {
        self.lock
    }

    /// The keys of the tasks that wait, oldest first.
    pub closed spec fn waiting(&self) -> Seq<usize> {
        self.wakers@
    }

    /// The set of waiting tasks is in order.
    pub closed spec fn wf(&self) -> bool {
        self.wakers.wf()
    }

    /// A free mutex for which nothing waits.
    pub fn new() -> (r: Self)
        ensures
            r.wf(),
            !r.locked(),
            r.waiting().len() == 0,
    {
        Mutex { lock: false, wakers: WakerSet::new() }
    }

    /// Whether the mutex is held.
    pub fn is_locked(&self) -> (r: bool)
        ensures
            r == self.locked(),
    {
        self.lock
    }

    /// Takes the lock if it is free.
    pub fn try_lock(&mut self) -> (r: Option<MutexGuard>)
        ensures
            r is Some <==> !old(self).locked(),
            final(self).locked(),
            final(self).waiting() == old(self).waiting(),
            final(self).wf() == old(self).wf(),
    {
        if self.lock {
            return None;
        }
        self.lock = true;
        Some(MutexGuard {  })
    }

    /// Registers a task that waits for the lock, behind those that wait
    /// already.
    pub fn register_waker(&mut self, waker: Waker)
        requires
            old(self).wf(),
        ensures
            final(self).wf(),
            final(self).locked() == old(self).locked(),
            final(self).waiting().len() == old(self).waiting().len() + 1,
            final(self).waiting().drop_last() == old(self).waiting(),
    {
        self.wakers.insert(waker);
        assert(self.wakers@.drop_last() =~= old(self).wakers@);
    }

    /// Releases the lock and wakes the task that waited longest, if any.
    pub fn unlock(&mut self, guard: MutexGuard)
        requires
            old(self).wf(),
        ensures
            final(self).wf(),
            !final(self).locked(),
            final(self).waiting() == if old(self).waiting().len() > 0 {
                old(self).waiting().subrange(1, old(self).waiting().len() as int)
            } else {
                old(self).waiting()
            },
    {
        self.lock = false;
        self.wakers.notify_one();
    }
}

} // verus!
