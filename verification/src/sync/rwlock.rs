//! The state word of the async reader-writer lock and the tasks that wait
//! for it.

use vstd::prelude::*;
use core::task::Waker;
use crate::sync::waker_set::WakerSet;

verus! {

/// Set in the state word while a write lock is held.
pub const WRITE_LOCK: u64 = 1;

/// What one reader adds to the state word.
pub const ONE_READ: u64 = 2;

/// The largest state word to which a reader may still be added.
pub const MAX_READ_STATE: u64 = 0x7fff_ffff_ffff_ffff;

/// An async reader-writer lock: its state word, and who waits to read and to
/// write. The value it guards lives with the caller.
pub struct RwLock {
    state: u64,
    read_wakers: WakerSet,
    write_wakers: WakerSet,
}

/// The proof of holding a read lock.
pub struct RwLockReadGuard {}

/// The proof of holding the write lock.
pub struct RwLockWriteGuard {}

impl RwLock {
    /// The state word: bit 0 is set while a writer holds the lock, the bits
    /// above it count the readers.
    pub closed spec fn state(&self) -> u64 {
        self.state
    }

    /// Whether a writer holds the lock.
    pub open spec fn write_held(&self) -> bool {
        self.state() % 2 == 1
    }

    /// How many readers hold the lock.
    pub open spec fn readers(&self) -> nat {
        (self.state() / 2) as nat
    }

    /// The keys of the tasks that wait to read, oldest first.
    pub closed spec fn waiting_readers(&self) -> Seq<usize> {
        self.read_wakers@
    }

    /// The keys of the tasks that wait to write, oldest first.
    pub closed spec fn waiting_writers(&self) -> Seq<usize> {
        self.write_wakers@
    }

    /// A writer excludes readers, and the waiting sets are in order.
    pub closed spec fn wf(&self) -> bool {
        &&& self.read_wakers.wf()
        &&& self.write_wakers.wf()
        &&& (self.state == 1 || self.state % 2 == 0)
    }

    /// While a writer holds the lock no reader does.
    pub proof fn lemma_exclusive(&self)
        requires
            self.wf(),
        ensures
            self.write_held() ==> self.readers() == 0,
    {
    }

    /// A free lock for which nothing waits.
    pub fn new() -> (r: Self)
        ensures
            r.wf(),
            r.state() == 0,
            r.waiting_readers().len() == 0,
            r.waiting_writers().len() == 0,
    {
        RwLock { state: 0, read_wakers: WakerSet::new(), write_wakers: WakerSet::new() }
    }

    /// How many readers hold the lock.
    pub fn reader_count(&self) -> (r: u64)
        ensures
            r == self.readers(),
    {
        self.state / 2
    }

    /// Whether a writer holds the lock.
    pub fn is_write_held(&self) -> (r: bool)
        ensures
            r == self.write_held(),
    {
        self.state % 2 == 1
    }

    /// Whether one more reader can be counted.
    pub fn can_count_reader(&self) -> (r: bool)
        ensures
            r == (self.state() <= MAX_READ_STATE),
    {
        self.state <= MAX_READ_STATE
    }

    /// Adds a reader if no writer holds the lock.
    pub fn try_read(&mut self) -> (r: Option<RwLockReadGuard>)
        requires
            old(self).wf(),
            old(self).write_held() || old(self).state() <= MAX_READ_STATE,
        ensures
            final(self).wf(),
            r is Some <==> !old(self).write_held(),
            final(self).state() == if r is Some {
                (old(self).state() + 2) as u64
            } else {
                old(self).state()
            },
            final(self).waiting_readers() == old(self).waiting_readers(),
            final(self).waiting_writers() == old(self).waiting_writers(),
    {
        if self.state % 2 != 0 {
            return None;
        }
        self.state = self.state + ONE_READ;
        Some(RwLockReadGuard {  })
    }

    /// Takes the write lock if nobody holds the lock.
    pub fn try_write(&mut self) -> (r: Option<RwLockWriteGuard>)
        requires
            old(self).wf(),
        ensures
            final(self).wf(),
            r is Some <==> old(self).state() == 0,
            final(self).state() == if r is Some {
                1
            } else {
                old(self).state()
            },
            final(self).waiting_readers() == old(self).waiting_readers(),
            final(self).waiting_writers() == old(self).waiting_writers(),
    {
        if self.state != 0 {
            return None;
        }
        self.state = WRITE_LOCK;
        Some(RwLockWriteGuard {  })
    }

    /// Registers a task that waits to read.
    pub fn wait_read(&mut self, waker: Waker)
        requires
            old(self).wf(),
        ensures
            final(self).wf(),
            final(self).state() == old(self).state(),
            final(self).waiting_writers() == old(self).waiting_writers(),
            final(self).waiting_readers().len() == old(self).waiting_readers().len() + 1,
            final(self).waiting_readers().drop_last() == old(self).waiting_readers(),
    {
        self.read_wakers.insert(waker);
        assert(self.read_wakers@.drop_last() =~= old(self).read_wakers@);
    }

    /// Registers a task that waits to write, and returns the key under which
    /// it can be cancelled.
    pub fn wait_write(&mut self, waker: Waker) -> (key: usize)
        requires
            old(self).wf(),
        ensures
            final(self).wf(),
            final(self).state() == old(self).state(),
            final(self).waiting_readers() == old(self).waiting_readers(),
            final(self).waiting_writers() == old(self).waiting_writers().push(key),
    {
        self.write_wakers.insert(waker)
    }

    /// Takes a task that gave up waiting to write out of the set, so that no
    /// wakeup is spent on it.
    pub fn cancel_write(&mut self, key: usize) -> (r: bool)
        requires
            old(self).wf(),
        ensures
            final(self).wf(),
            final(self).state() == old(self).state(),
            final(self).waiting_readers() == old(self).waiting_readers(),
            r == old(self).waiting_writers().contains(key),
            !r ==> final(self).waiting_writers() == old(self).waiting_writers(),
            r ==> final(self).waiting_writers().len() == old(self).waiting_writers().len() - 1,
    {
        self.write_wakers.cancel(key)
    }

    /// Gives a read lock back. The last reader to leave wakes the writer
    /// that waited longest.
    pub fn release_read(&mut self, guard: RwLockReadGuard)
        requires
            old(self).wf(),
            old(self).readers() > 0,
        ensures
            final(self).wf(),
            final(self).state() == old(self).state() - 2,
            final(self).waiting_readers() == old(self).waiting_readers(),
            final(self).waiting_writers() == if old(self).readers() == 1 && old(
                self,
            ).waiting_writers().len() > 0 {
                old(self).waiting_writers().subrange(1, old(self).waiting_writers().len() as int)
            } else {
                old(self).waiting_writers()
            },
    {
        let before: u64 = self.state;
        self.state = before - ONE_READ;
        if before / 2 == 1 {
            self.write_wakers.notify_any();
        }
    }

    /// Gives the write lock back and wakes every task that waits to read;
    /// where none does, the writer that waited longest.
    pub fn release_write(&mut self, guard: RwLockWriteGuard)
        requires
            old(self).wf(),
        ensures
            final(self).wf(),
            final(self).state() == 0,
            final(self).waiting_readers().len() == 0,
            final(self).waiting_writers() == if old(self).waiting_readers().len() == 0 && old(
                self,
            ).waiting_writers().len() > 0 {
                old(self).waiting_writers().subrange(1, old(self).waiting_writers().len() as int)
            } else {
                old(self).waiting_writers()
            },
    {
        self.state = 0;
        if !self.read_wakers.notify_all() {
            self.write_wakers.notify_any();
        }
    }
}

} // verus!
