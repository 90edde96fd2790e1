//! A set of waiting tasks, each under a key, woken in the order they came.

use vstd::prelude::*;
use core::task::Waker;
use crate::sync::queue::wake;

verus! {

/// The tasks that wait for a resource, oldest first.
pub struct WakerSet {
    keys: Vec<usize>,
    wakers: Vec<Waker>,
    next_key: usize,
}

impl WakerSet {
    /// The keys of the waiting tasks, oldest first.
    pub closed spec fn view(&self) -> Seq<usize> {
        self.keys@
    }

    /// The key that the next task to wait gets.
    pub closed spec fn next_key(&self) -> usize {
        self.next_key
    }

    /// Each key has its waker.
    pub closed spec fn wf(&self) -> bool {
        self.keys@.len() == self.wakers@.len()
    }

    /// A set in which nothing waits.
    pub fn new() -> (r: Self)
        ensures
            r.wf(),
            r@.len() == 0,
            r.next_key() == 0,
    {
        WakerSet { keys: Vec::new(), wakers: Vec::new(), next_key: 0 }
    }

    /// Adds a waiting task behind the others and returns its key.
    pub fn insert(&mut self, waker: Waker) -> (key: usize)
        requires
            old(self).wf(),
        ensures
            final(self).wf(),
            key == old(self).next_key(),
            final(self)@ == old(self)@.push(key),
            final(self).next_key() == old(self).next_key().wrapping_add(1),
    {
        let key: usize = self.next_key;
        self.next_key = key.wrapping_add(1);
        self.keys.push(key);
        self.wakers.push(waker);
        key
    }

    /// The position of the oldest task that waits under `key`, if there is
    /// one.
    fn find(&self, key: usize) -> (r: Option<usize>)
        ensures
            match r {
                Some(at) => at < self@.len() && self@[at as int] == key && forall|j: int|
                    0 <= j < at ==> self@[j] != key,
                None => !self@.contains(key),
            },
    {
        let mut i: usize = 0;
        while i < self.keys.len()
            invariant
                i <= self.keys@.len(),
                forall|j: int| 0 <= j < i ==> self.keys@[j] != key,
            decreases self.keys.len() - i,
        {
            if self.keys[i] == key {
                return Some(i);
            }
            i = i + 1;
        }
        None
    }

    /// Takes the oldest task that waits under `key` out of the set without
    /// waking it, and says whether there was one.
    pub fn cancel(&mut self, key: usize) -> (r: bool)
        requires
            old(self).wf(),
        ensures
            final(self).wf(),
            final(self).next_key() == old(self).next_key(),
            r == old(self)@.contains(key),
            r ==> exists|at: int|
                {
                    &&& 0 <= at < old(self)@.len()
                    &&& old(self)@[at] == key
                    &&& forall|j: int| 0 <= j < at ==> old(self)@[j] != key
                    &&& final(self)@ == #[trigger] old(self)@.remove(at)
                },
            !r ==> final(self)@ == old(self)@,
    {
        match self.find(key) {
            Some(at) => {
                self.keys.remove(at);
                self.wakers.remove(at);
                true
            },
            None => false,
        }
    }

    /// Wakes the oldest waiting task and takes it out of the set; says
    /// whether there was one.
    pub fn notify_one(&mut self) -> (r: bool)
        requires
            old(self).wf(),
        ensures
            final(self).wf(),
            final(self).next_key() == old(self).next_key(),
            r == (old(self)@.len() > 0),
            r ==> final(self)@ == old(self)@.subrange(1, old(self)@.len() as int),
            !r ==> final(self)@ == old(self)@,
    {
        if self.keys.len() == 0 {
            return false;
        }
        self.keys.remove(0);
        let waker = self.wakers.remove(0);
        wake(waker);
        assert(self.keys@ =~= old(self)@.subrange(1, old(self)@.len() as int));
        true
    }

    /// As `notify_one`.
    pub fn notify_any(&mut self) -> (r: bool)
        requires
            old(self).wf(),
        ensures
            final(self).wf(),
            final(self).next_key() == old(self).next_key(),
            r == (old(self)@.len() > 0),
            r ==> final(self)@ == old(self)@.subrange(1, old(self)@.len() as int),
            !r ==> final(self)@ == old(self)@,
    {
        self.notify_one()
    }

    /// Wakes every waiting task, oldest first, and empties the set; says
    /// whether there was one.
    pub fn notify_all(&mut self) -> (r: bool)
        requires
            old(self).wf(),
        ensures
            final(self).wf(),
            final(self).next_key() == old(self).next_key(),
            r == (old(self)@.len() > 0),
            final(self)@.len() == 0,
    {
        let any: bool = self.keys.len() > 0;
        while self.keys.len() > 0
            invariant
                self.wf(),
                self.next_key == old(self).next_key,
            decreases self.keys@.len(),
        {
            self.keys.remove(0);
            let waker = self.wakers.remove(0);
            wake(waker);
        }
        any
    }

    /// How many tasks wait.
    pub fn len(&self) -> (r: usize)
        ensures
            r == self@.len(),
    {
        self.keys.len()
    }
}

} // verus!
