//! The unbounded channel of byte buffers, with many senders and one
//! receiver.

use vstd::prelude::*;
use core::task::Waker;
use crossbeam_queue::SegQueue;
use futures_util::task::AtomicWaker;
use crate::sync::queue::{
    cell_holds, cell_new, cell_register, cell_wake, seg_items, seg_new, seg_pop, seg_push,
};
use crate::sync::{Permits, Semaphore};

verus! {

/// What a channel is, for the contracts.
pub struct ChannelView {
    /// The messages sent and not yet received, oldest first.
    pub queue: Seq<Seq<u8>>,
    /// How many messages the semaphore counts as in flight.
    pub count: nat,
    /// Whether sending is closed.
    pub closed: bool,
    /// Whether the receiving side is closed, so that an empty channel ends.
    pub rx_closed: bool,
    /// How many senders there are.
    pub senders: nat,
    /// Whether the receiver waits to be woken.
    pub has_waker: bool,
}

/// The state that the senders and the receiver of one channel share.
pub struct Channel {
    list: SegQueue<Vec<u8>>,
    semaphore: Permits,
    rx_waker: AtomicWaker,
    tx_count: usize,
    rx_closed: bool,
}

/// What a poll of the receiver came to.
pub enum RecvPoll {
    /// The oldest message.
    Message(Vec<u8>),
    /// The channel is closed and empty: no message will come.
    Ended,
    /// No message waits: the receiver was registered and is woken when one
    /// is sent or the channel closes.
    Pending,
}

/// A sending end of a channel.
pub struct UnboundedSender {}

/// The receiving end of a channel.
pub struct UnboundedReceiver {}

/// A new channel with its first sender and its receiver.
pub fn channel() -> (r: (Channel, UnboundedSender, UnboundedReceiver))
    ensures
        r.0.wf(),
        r.0.has_room(),
        r.0@ == (ChannelView {
            queue: Seq::empty(),
            count: 0,
            closed: false,
            rx_closed: false,
            senders: 1,
            has_waker: false,
        }),
{
    let chan = Channel {
        list: seg_new(),
        semaphore: Permits::new(),
        rx_waker: cell_new(),
        tx_count: 1,
        rx_closed: false,
    };
    assert(chan@.queue =~= Seq::empty());
    (chan, UnboundedSender {  }, UnboundedReceiver {  })
}

impl Channel {
    /// What the channel is, for the contracts.
    pub closed spec fn view(&self) -> ChannelView {
        ChannelView {
            queue: seg_items(self.list),
            count: self.semaphore.permits(),
            closed: self.semaphore.closed(),
            rx_closed: self.rx_closed,
            senders: self.tx_count as nat,
            has_waker: cell_holds(self.rx_waker),
        }
    }

    /// The semaphore counts the messages in the queue.
    pub open spec fn wf(&self) -> bool {
        self@.count == self@.queue.len()
    }

    /// Whether the semaphore can count one more message: it can while it
    /// counts fewer than half of what a word holds.
    pub open spec fn has_room(&self) -> bool {
        self@.count < (usize::MAX - 1) / 2
    }

    /// Whether the semaphore can count one more message.
    pub fn can_count(&self) -> (r: bool)
        ensures
            r == self.has_room(),
    {
        self.semaphore.count() < (usize::MAX - 1) / 2
    }

    /// How many messages wait in the queue.
    pub fn len(&self) -> (r: usize)
        requires
            self.wf(),
        ensures
            r == self@.queue.len(),
    {
        self.semaphore.count()
    }

    /// Wakes the receiver, if it waits.
    fn wake_rx(&mut self)
        ensures
            final(self)@ == (ChannelView { has_waker: false, ..old(self)@ }),
    {
        cell_wake(&mut self.rx_waker);
    }

    /// Takes the oldest message, if there is one.
    fn try_recv(&mut self) -> (r: Option<Vec<u8>>)
        requires
            old(self).wf(),
        ensures
            final(self).wf(),
            old(self)@.queue.len() == 0 ==> r is None && final(self)@ == old(self)@,
            old(self)@.queue.len() > 0 ==> r is Some && r->Some_0@ == old(self)@.queue[0]
                && final(self)@ == (ChannelView {
                queue: old(self)@.queue.subrange(1, old(self)@.queue.len() as int),
                count: (old(self)@.count - 1) as nat,
                ..old(self)@
            }),
    {
        match seg_pop(&mut self.list) {
            Some(value) => {
                self.semaphore.add_permit();
                Some(value)
            },
            None => None,
        }
    }
}

impl UnboundedSender {
    /// Sends `message`: it goes behind the messages already sent, and the
    /// receiver is woken. A closed channel refuses it and stays as it is.
    ///
    /// There is room for the next message as long as the queue, one longer
    /// now, still holds fewer than half of what a word counts.
    pub fn send(&self, chan: &mut Channel, message: Vec<u8>) -> (r: Result<(), ()>)
        requires
            old(chan).wf(),
            old(chan)@.closed || old(chan).has_room(),
        ensures
            final(chan).wf(),
            r is Err <==> old(chan)@.closed,
            r is Err ==> final(chan)@ == old(chan)@,
            r is Ok ==> final(chan)@ == (ChannelView {
                queue: old(chan)@.queue.push(message@),
                count: old(chan)@.count + 1,
                has_waker: false,
                ..old(chan)@
            }),
            r is Ok ==> (final(chan).has_room() <==> old(chan)@.queue.len() + 1 < (usize::MAX - 1)
                / 2),
    {
        if !chan.semaphore.inc_num_messages() {
            return Err(());
        }
        seg_push(&mut chan.list, message);
        chan.wake_rx();
        Ok(())
    }

    /// Closes the channel for sending.
    pub fn closed(&self, chan: &mut Channel)
        ensures
            final(chan)@ == (ChannelView { closed: true, ..old(chan)@ }),
    {
        chan.semaphore.close();
    }

    /// Whether the channel is closed for sending.
    pub fn is_closed(&self, chan: &Channel) -> (r: bool)
        ensures
            r == chan@.closed,
    {
        chan.semaphore.is_closed()
    }

    /// One more sender of the channel.
    pub fn duplicate(&self, chan: &mut Channel) -> (r: UnboundedSender)
        requires
            old(chan)@.senders < usize::MAX,
        ensures
            final(chan)@ == (ChannelView { senders: old(chan)@.senders + 1, ..old(chan)@ }),
    {
        chan.tx_count = chan.tx_count + 1;
        UnboundedSender {  }
    }

    /// Gives the sender up. With the last sender the channel closes on both
    /// sides, and the receiver is woken.
    pub fn release(self, chan: &mut Channel)
        requires
            old(chan)@.senders > 0,
        ensures
            final(chan)@ == if old(chan)@.senders == 1 {
                ChannelView {
                    senders: 0,
                    closed: true,
                    rx_closed: true,
                    has_waker: false,
                    ..old(chan)@
                }
            } else {
                ChannelView { senders: (old(chan)@.senders - 1) as nat, ..old(chan)@ }
            },
    {
        chan.tx_count = chan.tx_count - 1;
        if chan.tx_count != 0 {
            return ;
        }
        chan.semaphore.close();
        chan.rx_closed = true;
        chan.wake_rx();
    }
}

impl UnboundedReceiver {
    /// Closes the channel on both sides: nothing more can be sent, and once
    /// it is empty it ends.
    pub fn close(&mut self, chan: &mut Channel)
        ensures
            final(chan)@ == (ChannelView { closed: true, rx_closed: true, ..old(chan)@ }),
    {
        if !chan.rx_closed {
            chan.rx_closed = true;
        }
        chan.semaphore.close();
    }

    /// Takes the oldest message. Where none waits, the channel has ended if
    /// its receiving side is closed; otherwise the receiver is registered
    /// with `waker`.
    pub fn poll_recv(&mut self, chan: &mut Channel, waker: Waker) -> (r: RecvPoll)
        requires
            old(chan).wf(),
        ensures
            final(chan).wf(),
            old(chan)@.queue.len() > 0 ==> r is Message && r->Message_0@ == old(chan)@.queue[0]
                && final(chan)@ == (ChannelView {
                queue: old(chan)@.queue.subrange(1, old(chan)@.queue.len() as int),
                count: (old(chan)@.count - 1) as nat,
                ..old(chan)@
            }),
            old(chan)@.queue.len() == 0 ==> final(chan)@ == (ChannelView {
                has_waker: true,
                ..old(chan)@
            }) && if old(chan)@.rx_closed {
                r is Ended
            } else {
                r is Pending
            },
    {
        if let Some(value) = chan.try_recv() {
            return RecvPoll::Message(value);
        }
        cell_register(&mut chan.rx_waker, &waker);
        if let Some(value) = chan.try_recv() {
            return RecvPoll::Message(value);
        }
        if chan.semaphore.is_idle() {
            if chan.rx_closed {
                return RecvPoll::Ended;
            }
        }
        RecvPoll::Pending
    }
}

/// The channel after `messages` were sent on it one after the other.
pub open spec fn after_sends(c: ChannelView, messages: Seq<Seq<u8>>) -> ChannelView
    decreases messages.len(),
{
    if messages.len() == 0 {
        c
    } else {
        let before = after_sends(c, messages.drop_last());
        ChannelView {
            queue: before.queue.push(messages.last()),
            count: before.count + 1,
            has_waker: false,
            ..before
        }
    }
}

/// The messages that `n` polls take off the channel, in the order they are
/// taken.
pub open spec fn received(c: ChannelView, n: nat) -> Seq<Seq<u8>>
    decreases n,
{
    if n == 0 || c.queue.len() == 0 {
        Seq::empty()
    } else {
        seq![c.queue[0]] + received(
            ChannelView {
                queue: c.queue.subrange(1, c.queue.len() as int),
                count: (c.count - 1) as nat,
                ..c
            },
            (n - 1) as nat,
        )
    }
}

/// Messages sent on a channel are queued behind those already there, in the
/// order they were sent.
pub proof fn lemma_sends_queue_in_order(c: ChannelView, messages: Seq<Seq<u8>>)
    ensures
        after_sends(c, messages).queue == c.queue + messages,
        after_sends(c, messages).count == c.count + messages.len(),
        after_sends(c, messages).closed == c.closed,
        after_sends(c, messages).rx_closed == c.rx_closed,
        after_sends(c, messages).senders == c.senders,
    decreases messages.len(),
{
    if messages.len() > 0 {
        lemma_sends_queue_in_order(c, messages.drop_last());
        assert(after_sends(c, messages).queue =~= c.queue + messages);
    } else {
        assert(after_sends(c, messages).queue =~= c.queue + messages);
    }
}

/// Polls take the queued messages off the channel oldest first.
pub proof fn lemma_polls_take_in_order(c: ChannelView, n: nat)
    requires
        n <= c.queue.len(),
    ensures
        received(c, n) == c.queue.subrange(0, n as int),
    decreases n,
{
    if n > 0 {
        let rest = ChannelView {
            queue: c.queue.subrange(1, c.queue.len() as int),
            count: (c.count - 1) as nat,
            ..c
        };
        lemma_polls_take_in_order(rest, (n - 1) as nat);
        assert(received(c, n) =~= c.queue.subrange(0, n as int));
    } else {
        assert(received(c, n) =~= c.queue.subrange(0, n as int));
    }
}

/// What is sent on an empty channel is received in the order it was sent.
pub proof fn lemma_fifo(c: ChannelView, messages: Seq<Seq<u8>>)
    requires
        c.queue.len() == 0,
    ensures
        received(after_sends(c, messages), messages.len()) == messages,
{
    lemma_sends_queue_in_order(c, messages);
    assert(c.queue + messages =~= messages);
    lemma_polls_take_in_order(after_sends(c, messages), messages.len());
    assert(messages.subrange(0, messages.len() as int) =~= messages);
}

} // verus!
