//! What the library takes on trust from outside: the two lock-free queues
//! of `crossbeam_queue` and the waker cell of `futures_util`, each used
//! through exclusive references, the waker of `core::task`, and the one
//! operation of the ordered map of std that has no specification yet.

use vstd::prelude::*;
use core::task::Waker;
use std::collections::BTreeMap;
use crossbeam_queue::{ArrayQueue, SegQueue};
use futures_util::task::AtomicWaker;

verus! {

/// The handle by which a suspended task asks to be polled again. Nothing is
/// known of what it holds.
#[verifier::external_type_specification]
#[verifier::external_body]
pub struct ExWaker(core::task::Waker);

/// The unbounded queue of `crossbeam_queue`.
#[verifier::external_type_specification]
#[verifier::external_body]
#[verifier::reject_recursive_types(T)]
pub struct ExSegQueue<T>(crossbeam_queue::SegQueue<T>);

/// The bounded queue of `crossbeam_queue`.
#[verifier::external_type_specification]
#[verifier::external_body]
#[verifier::reject_recursive_types(T)]
pub struct ExArrayQueue<T>(crossbeam_queue::ArrayQueue<T>);

/// The single-slot cell of `futures_util` in which one task leaves its
/// waker.
#[verifier::external_type_specification]
#[verifier::external_body]
pub struct ExAtomicWaker(futures_util::task::AtomicWaker);

/// Whether the cell holds a waker: one was registered and none was woken
/// since.
pub uninterp spec fn cell_holds(cell: AtomicWaker) -> bool;

/// The byte buffers that an unbounded queue holds, head first.
pub uninterp spec fn seg_items(q: SegQueue<Vec<u8>>) -> Seq<Seq<u8>>;

/// The numbers that a bounded queue holds, head first.
pub uninterp spec fn array_items(q: ArrayQueue<u64>) -> Seq<u64>;

/// The capacity that a bounded queue was made with.
pub uninterp spec fn array_capacity(q: ArrayQueue<u64>) -> nat;

/// Wakes the task behind `waker`, by `core::task::Waker::wake`. Nothing is
/// claimed of the call.
#[verifier::external_body]
pub(crate) fn wake(waker: Waker) {
    waker.wake()
}

/// Takes the sleeper with the earliest deadline out of the map, by
/// `BTreeMap::pop_first`, which removes and returns the first element, the
/// one whose key is the minimum key that was in the map, and returns nothing
/// where the map is empty.
#[verifier::external_body]
pub(crate) fn timers_pop_first(timers: &mut BTreeMap<u64, Waker>) -> (r: Option<(u64, Waker)>)
    ensures
        r is None ==> final(timers)@ == old(timers)@ && forall|k: u64|
            !old(timers)@.dom().contains(k),
        r is Some ==> old(timers)@.contains_pair(r->Some_0.0, r->Some_0.1),
        r is Some ==> forall|k: u64| old(timers)@.dom().contains(k) ==> r->Some_0.0 <= k,
        r is Some ==> final(timers)@ == old(timers)@.remove(r->Some_0.0),
{
    timers.pop_first()
}

/// An empty cell, by `AtomicWaker::new`.
#[verifier::external_body]
pub(crate) fn cell_new() -> (cell: AtomicWaker)
    ensures
        !cell_holds(cell),
{
    AtomicWaker::new()
}

/// Leaves `waker` in the cell, by `AtomicWaker::register`, which registers
/// the waker in place of any registered before. The exclusive reference
/// keeps a wake from running beside it.
#[verifier::external_body]
pub(crate) fn cell_register(cell: &mut AtomicWaker, waker: &Waker)
    ensures
        cell_holds(*final(cell)),
{
    cell.register(waker)
}

/// Wakes the task whose waker the cell holds and empties the cell, by
/// `AtomicWaker::wake`, which wakes the last waker registered and does
/// nothing where there is none.
#[verifier::external_body]
pub(crate) fn cell_wake(cell: &mut AtomicWaker)
    ensures
        !cell_holds(*final(cell)),
{
    cell.wake()
}

/// An empty unbounded queue, by `SegQueue::new`.
#[verifier::external_body]
pub(crate) fn seg_new() -> (q: SegQueue<Vec<u8>>)
    ensures
        seg_items(q).len() == 0,
{
    SegQueue::new()
}

/// Appends `value` at the tail, by `SegQueue::push_mut`, which pushes back an
/// element to the tail.
#[verifier::external_body]
pub(crate) fn seg_push(q: &mut SegQueue<Vec<u8>>, value: Vec<u8>)
    ensures
        seg_items(*final(q)) == seg_items(*old(q)).push(value@),
{
    q.push_mut(value)
}

/// Takes the head, by `SegQueue::pop_mut`, which pops the head element and
/// returns nothing where the queue is empty.
#[verifier::external_body]
pub(crate) fn seg_pop(q: &mut SegQueue<Vec<u8>>) -> (r: Option<Vec<u8>>)
    ensures
        seg_items(*old(q)).len() == 0 ==> r is None && seg_items(*final(q)) == seg_items(*old(q)),
        seg_items(*old(q)).len() > 0 ==> r is Some && r->Some_0@ == seg_items(*old(q))[0]
            && seg_items(*final(q)) == seg_items(*old(q)).subrange(
            1,
            seg_items(*old(q)).len() as int,
        ),
{
    q.pop_mut()
}

/// An empty bounded queue of capacity `cap`, by `ArrayQueue::new`, which
/// panics on a capacity of zero or one too large to allocate.
#[verifier::external_body]
pub(crate) fn array_new(cap: usize) -> (q: ArrayQueue<u64>)
    requires
        0 < cap <= 0x1_0000,
    ensures
        array_items(q).len() == 0,
        array_capacity(q) == cap,
{
    ArrayQueue::new(cap)
}

/// Appends `value` at the tail, by `ArrayQueue::push_mut`, which hands the
/// element back as an error where the queue is full.
#[verifier::external_body]
pub(crate) fn array_push(q: &mut ArrayQueue<u64>, value: u64) -> (r: Result<(), u64>)
    ensures
        array_capacity(*final(q)) == array_capacity(*old(q)),
        array_items(*old(q)).len() < array_capacity(*old(q)) ==> r is Ok && array_items(*final(q))
            == array_items(*old(q)).push(value),
        array_items(*old(q)).len() >= array_capacity(*old(q)) ==> r is Err && r->Err_0 == value
            && array_items(*final(q)) == array_items(*old(q)),
{
    q.push_mut(value)
}

/// Takes the head, by `ArrayQueue::pop_mut`, which returns nothing where the
/// queue is empty.
#[verifier::external_body]
pub(crate) fn array_pop(q: &mut ArrayQueue<u64>) -> (r: Option<u64>)
    ensures
        array_capacity(*final(q)) == array_capacity(*old(q)),
        array_items(*old(q)).len() == 0 ==> r is None && array_items(*final(q)) == array_items(
            *old(q),
        ),
        array_items(*old(q)).len() > 0 ==> r == Some(array_items(*old(q))[0]) && array_items(
            *final(q),
        ) == array_items(*old(q)).subrange(1, array_items(*old(q)).len() as int),
{
    q.pop_mut()
}

/// How many numbers the queue holds, by `ArrayQueue::len`.
#[verifier::external_body]
pub(crate) fn array_len(q: &ArrayQueue<u64>) -> (r: usize)
    ensures
        r == array_items(*q).len(),
{
    q.len()
}

/// The capacity of the queue, by `ArrayQueue::capacity`.
#[verifier::external_body]
pub(crate) fn array_cap(q: &ArrayQueue<u64>) -> (r: usize)
    ensures
        r == array_capacity(*q),
{
    q.capacity()
}

} // verus!
