//! Synchronisation primitives that work with the executor: the channel, the
//! mutex and the reader-writer lock, each as the bookkeeping behind its
//! futures.

use vstd::prelude::*;

pub mod queue;
pub mod waker_set;
pub mod mpsc;
pub mod mutex;
pub mod rwlock;




verus! {

/// The counter of a channel: how many messages are in flight, and whether
/// the channel is closed.
pub trait Semaphore {
    /// The number of messages in flight.
    spec fn permits(&self) -> nat;

    /// Whether the channel is closed.
    spec fn closed(&self) -> bool;

    /// Takes one message off the count.
    fn add_permit(&mut self)
        requires
            old(self).permits() > 0,
        ensures
            final(self).permits() == old(self).permits() - 1,
            final(self).closed() == old(self).closed(),
    ;

    /// Whether no message is in flight.
    fn is_idle(&self) -> (r: bool)
        ensures
            r == (self.permits() == 0),
    ;

    /// Closes the channel and keeps the count.
    fn close(&mut self)
        ensures
            final(self).closed(),
            final(self).permits() == old(self).permits(),
    ;

    /// Whether the channel is closed.
    fn is_closed(&self) -> (r: bool)
        ensures
            r == self.closed(),
    ;
}

/// A semaphore in one word: the message count above the lowest bit, the
/// closed flag in it.
pub struct Permits {
    word: usize,
}

impl Permits {
    /// The word: twice the message count, plus one where closed.
    pub closed spec fn word(&self) -> usize {
        self.word
    }

    /// An open semaphore without messages.
    pub fn new() -> (r: Self)
        ensures
            r.word() == 0,
    {
        Permits { word: 0 }
    }

    /// How many messages are in flight.
    pub fn count(&self) -> (r: usize)
        ensures
            r == self.permits(),
    {
        self.word / 2
    }

    /// Whether the word can count no further message.
    pub fn is_full(&self) -> (r: bool)
        ensures
            r == !(self.word() < usize::MAX - 1),
    {
        self.word >= usize::MAX - 1
    }

    /// Adds one message to the count, unless the channel is closed, and says
    /// whether it did.
    pub fn inc_num_messages(&mut self) -> (r: bool)
        requires
            old(self).closed() || old(self).word() < usize::MAX - 1,
        ensures
            r == !old(self).closed(),
            final(self).word() == if r {
                (old(self).word() + 2) as usize
            } else {
                old(self).word()
            },
    {
        if self.word % 2 == 1 {
            return false;
        }
        self.word = self.word + 2;
        true
    }
}

impl Semaphore for Permits {
    open spec fn permits(&self) -> nat {
        (self.word() / 2) as nat
    }

    open spec fn closed(&self) -> bool {
        self.word() % 2 == 1
    }

    fn add_permit(&mut self) {
        self.word = self.word - 2;
    }

    fn is_idle(&self) -> (r: bool) {
        self.word / 2 == 0
    }

    fn close(&mut self) {
        if self.word % 2 == 0 {
            self.word = self.word + 1;
        }
    }

    fn is_closed(&self) -> (r: bool) {
        self.word % 2 == 1
    }
}

} // verus!
