use std::sync::atomic::{AtomicUsize, Ordering};
use std::sync::Arc;
use std::task::{Wake, Waker};

use vallicks::sync::mpsc::{channel, RecvPoll};
use vallicks::sync::mutex::Mutex;
use vallicks::sync::rwlock::RwLock;
use vallicks::sync::waker_set::WakerSet;
use vallicks::sync::{Permits, Semaphore};

struct Counter(AtomicUsize);

impl Wake for Counter {
    fn wake(self: Arc<Self>) {
        self.0.fetch_add(1, Ordering::SeqCst);
    }
}

fn counting_waker() -> (Arc<Counter>, Waker) {
    let c = Arc::new(Counter(AtomicUsize::new(0)));
    (c.clone(), Waker::from(c))
}

fn woken(c: &Arc<Counter>) -> usize {
    c.0.load(Ordering::SeqCst)
}

#[test]
fn channel_fifo() {
    let (mut chan, tx, mut rx) = channel();
    for i in 1..=100u8 {
        assert!(tx.send(&mut chan, vec![i]).is_ok());
    }
    let mut seen = Vec::new();
    for _ in 0..100 {
        let (_, w) = counting_waker();
        match rx.poll_recv(&mut chan, w) {
            RecvPoll::Message(m) => seen.push(m[0]),
            _ => panic!("a message waits"),
        }
    }
    assert_eq!(seen, (1..=100u8).collect::<Vec<u8>>());
    let (_, w) = counting_waker();
    assert!(matches!(rx.poll_recv(&mut chan, w), RecvPoll::Pending));
}

#[test]
fn mpsc_close() {
    let (mut chan, tx, mut rx) = channel();
    tx.send(&mut chan, vec![1]).unwrap();
    tx.send(&mut chan, vec![2]).unwrap();
    tx.send(&mut chan, vec![3]).unwrap();
    tx.release(&mut chan);
    for expected in 1..=3u8 {
        let (_, w) = counting_waker();
        match rx.poll_recv(&mut chan, w) {
            RecvPoll::Message(m) => assert_eq!(m, vec![expected]),
            _ => panic!("the messages sent before the close are received"),
        }
    }
    let (_, w) = counting_waker();
    assert!(matches!(rx.poll_recv(&mut chan, w), RecvPoll::Ended));
}

#[test]
fn channel_wakes_a_waiting_receiver() {
    let (mut chan, tx, mut rx) = channel();
    let (count, w) = counting_waker();
    assert!(matches!(rx.poll_recv(&mut chan, w), RecvPoll::Pending));
    assert_eq!(woken(&count), 0);
    tx.send(&mut chan, vec![42]).unwrap();
    assert_eq!(woken(&count), 1);
    // The receiver is woken once for one registration.
    tx.send(&mut chan, vec![43]).unwrap();
    assert_eq!(woken(&count), 1);
}

#[test]
fn last_sender_closes_and_wakes() {
    let (mut chan, tx, mut rx) = channel();
    let second = tx.duplicate(&mut chan);
    let (count, w) = counting_waker();
    assert!(matches!(rx.poll_recv(&mut chan, w), RecvPoll::Pending));
    tx.release(&mut chan);
    assert_eq!(woken(&count), 0);
    assert!(!second.is_closed(&chan));
    let (_, w2) = counting_waker();
    assert!(matches!(rx.poll_recv(&mut chan, w2), RecvPoll::Pending));
    second.release(&mut chan);
    let (_, w3) = counting_waker();
    assert!(matches!(rx.poll_recv(&mut chan, w3), RecvPoll::Ended));
}

#[test]
fn closed_channel_refuses_messages() {
    let (mut chan, tx, mut rx) = channel();
    tx.send(&mut chan, vec![1]).unwrap();
    rx.close(&mut chan);
    assert!(tx.is_closed(&chan));
    assert!(tx.send(&mut chan, vec![2]).is_err());
    let (_, w) = counting_waker();
    assert!(matches!(rx.poll_recv(&mut chan, w), RecvPoll::Message(_)));
    let (_, w) = counting_waker();
    assert!(matches!(rx.poll_recv(&mut chan, w), RecvPoll::Ended));
}

#[test]
fn closed_channel_refuses_even_without_room_to_count() {
    let (mut chan, tx, mut rx) = channel();
    assert_eq!(chan.len(), 0);
    tx.send(&mut chan, vec![1]).unwrap();
    tx.send(&mut chan, vec![2]).unwrap();
    assert_eq!(chan.len(), 2);
    rx.close(&mut chan);
    assert!(tx.send(&mut chan, vec![3]).is_err());
    assert_eq!(chan.len(), 2);
}

#[test]
fn sender_can_close() {
    let (mut chan, tx, _rx) = channel();
    assert!(chan.can_count());
    assert!(!tx.is_closed(&chan));
    tx.closed(&mut chan);
    assert!(tx.is_closed(&chan));
    assert!(tx.send(&mut chan, vec![1]).is_err());
}

#[test]
fn permits_count_in_the_upper_bits() {
    let mut p = Permits::new();
    assert!(p.is_idle());
    assert!(!p.is_closed());
    assert!(!p.is_full());
    assert!(p.inc_num_messages());
    assert!(p.inc_num_messages());
    assert_eq!(p.count(), 2);
    assert!(!p.is_idle());
    p.close();
    assert!(p.is_closed());
    assert!(!p.inc_num_messages());
    p.add_permit();
    assert!(!p.is_idle());
    p.add_permit();
    assert!(p.is_idle());
    assert!(p.is_closed());
    p.close();
    assert!(p.is_closed());
    assert!(p.is_idle());
}

#[test]
fn mutex_hands_over_in_order() {
    let mut m = Mutex::new();
    assert!(!m.is_locked());
    let guard = m.try_lock().expect("a free mutex is taken");
    assert!(m.is_locked());
    assert!(m.try_lock().is_none());
    let (first, w1) = counting_waker();
    let (second, w2) = counting_waker();
    m.register_waker(w1);
    m.register_waker(w2);
    m.unlock(guard);
    assert_eq!((woken(&first), woken(&second)), (1, 0));
    let guard = m.try_lock().expect("the mutex was released");
    m.unlock(guard);
    assert_eq!((woken(&first), woken(&second)), (1, 1));
    let guard = m.try_lock().unwrap();
    m.unlock(guard);
    assert_eq!((woken(&first), woken(&second)), (1, 1));
}

#[test]
fn rwlock_readers_share_and_writers_exclude() {
    let mut l = RwLock::new();
    assert!(l.can_count_reader());
    let r1 = l.try_read().expect("a free lock is read");
    let r2 = l.try_read().expect("readers share");
    assert_eq!(l.reader_count(), 2);
    assert!(!l.is_write_held());
    assert!(l.try_write().is_none());
    l.release_read(r1);
    assert!(l.try_write().is_none());
    l.release_read(r2);
    let w = l.try_write().expect("a free lock is written");
    assert!(l.is_write_held());
    assert_eq!(l.reader_count(), 0);
    assert!(l.try_read().is_none());
    assert!(l.try_write().is_none());
    l.release_write(w);
    assert!(l.try_read().is_some());
}

#[test]
fn rwlock_wakes_readers_first_then_one_writer() {
    let mut l = RwLock::new();
    let w = l.try_write().unwrap();
    let (ra, wa) = counting_waker();
    let (rb, wb) = counting_waker();
    let (wc, wwc) = counting_waker();
    let (wd, wwd) = counting_waker();
    l.wait_read(wa);
    l.wait_read(wb);
    l.wait_write(wwc);
    l.wait_write(wwd);
    l.release_write(w);
    assert_eq!((woken(&ra), woken(&rb), woken(&wc), woken(&wd)), (1, 1, 0, 0));
    // The last reader to leave wakes the writer that waited longest.
    let r1 = l.try_read().unwrap();
    let r2 = l.try_read().unwrap();
    l.release_read(r1);
    assert_eq!((woken(&wc), woken(&wd)), (0, 0));
    l.release_read(r2);
    assert_eq!((woken(&wc), woken(&wd)), (1, 0));
    // With no reader waiting, a release of the write lock wakes a writer.
    let w = l.try_write().unwrap();
    l.release_write(w);
    assert_eq!((woken(&wc), woken(&wd)), (1, 1));
}

#[test]
fn rwlock_cancelled_writer_is_not_woken() {
    let mut l = RwLock::new();
    let w = l.try_write().unwrap();
    let (first, w1) = counting_waker();
    let (second, w2) = counting_waker();
    let key = l.wait_write(w1);
    l.wait_write(w2);
    assert!(l.cancel_write(key));
    assert!(!l.cancel_write(key));
    l.release_write(w);
    assert_eq!((woken(&first), woken(&second)), (0, 1));
}

#[test]
fn waker_set_keys_and_order() {
    let mut set = WakerSet::new();
    let (a, wa) = counting_waker();
    let (b, wb) = counting_waker();
    let (c, wc) = counting_waker();
    assert_eq!(set.insert(wa), 0);
    assert_eq!(set.insert(wb), 1);
    assert_eq!(set.insert(wc), 2);
    assert_eq!(set.len(), 3);
    assert!(set.cancel(1));
    assert!(!set.cancel(7));
    assert!(set.notify_one());
    assert_eq!((woken(&a), woken(&b), woken(&c)), (1, 0, 0));
    assert!(set.notify_all());
    assert_eq!((woken(&a), woken(&b), woken(&c)), (1, 0, 1));
    assert!(!set.notify_any());
    assert!(!set.notify_all());
    assert_eq!(set.len(), 0);
}
