use std::sync::atomic::{AtomicUsize, Ordering};
use std::sync::Arc;
use std::task::{Wake, Waker};

use vallicks::arch::pit::{reload_bytes, reload_value, Pit};
use vallicks::driver::rtl8139::{
    advanced, capr, isr_plan, next_cursor, next_tx_slot, read_frame, tx_cmd_port, tx_data_port,
    tx_len_word, INT_MASK, RCR_CONFIG, RX_BUF_TOTAL,
};
use vallicks::runtime::executor::Executor;
use vallicks::runtime::{Interval, Sleep, TaskId, TaskIds, TimerQueue};

struct Counter(AtomicUsize);

impl Wake for Counter {
    fn wake(self: Arc<Self>) {
        self.0.fetch_add(1, Ordering::SeqCst);
    }
}

fn counting_waker() -> (Arc<Counter>, Waker) {
    let c = Arc::new(Counter(AtomicUsize::new(0)));
    (c.clone(), Waker::from(c))
}

fn woken(c: &Arc<Counter>) -> usize {
    c.0.load(Ordering::SeqCst)
}

fn pit_at_1khz() -> Pit {
    let mut pit = Pit::new();
    pit.init(1000);
    pit
}

fn run(pit: &mut Pit, ticks: u64) -> usize {
    let mut due = 0;
    for _ in 0..ticks {
        if pit.tick() {
            due += 1;
        }
    }
    due
}

#[test]
fn task_that_yields_n_times_is_polled_n_plus_one_times() {
    for n in [0u64, 1, 2, 7, 100] {
        let mut exec = Executor::new();
        assert_eq!(exec.run_yielding(TaskId(3), n), n + 1);
        assert!(exec.is_idle());
        assert!(!exec.has_task(TaskId(3)));
    }
}

#[test]
fn yielding_task_is_polled_n_plus_one_times_among_others() {
    for n in [0u64, 1, 4, 50] {
        let mut exec = Executor::new();
        exec.spawn(TaskId(1));
        exec.spawn(TaskId(2));
        exec.spawn(TaskId(3));
        let others = vec![true, true, false, true, true, true, false];
        assert_eq!(exec.run_counting(TaskId(2), n, &others), n + 1);
        assert!(exec.is_idle());
        assert!(!exec.has_task(TaskId(1)));
        assert!(!exec.has_task(TaskId(2)));
        assert!(!exec.has_task(TaskId(3)));
    }
    // A stale entry of a task that is gone is passed over and polls nothing.
    let mut exec = Executor::new();
    exec.spawn(TaskId(9));
    exec.complete(TaskId(9));
    exec.spawn(TaskId(2));
    assert_eq!(exec.run_counting(TaskId(2), 3, &vec![]), 4);
}

#[test]
fn timer_queue_counts_its_sleepers() {
    let mut pit = pit_at_1khz();
    let mut timers = TimerQueue::new();
    assert_eq!(timers.len(), 0);
    let (_, w) = counting_waker();
    timers.push_timer(5, w, &mut pit);
    let (_, w) = counting_waker();
    timers.push_timer(7, w, &mut pit);
    // A second sleeper under the same deadline takes the place of the first.
    let (first, w) = counting_waker();
    timers.insert(9, w);
    let (second, w) = counting_waker();
    timers.insert(9, w);
    assert_eq!(timers.len(), 3);
    run(&mut pit, 9);
    assert_eq!(timers.wake_tasks(&mut pit), 3);
    assert_eq!((woken(&first), woken(&second)), (0, 1));
    assert_eq!(timers.len(), 0);
}

#[test]
fn executor_polls_in_wake_order_and_skips_finished_tasks() {
    let mut exec = Executor::new();
    exec.spawn(TaskId(1));
    exec.spawn(TaskId(2));
    exec.spawn(TaskId(3));
    assert!(!exec.is_idle());
    assert_eq!(exec.next_ready(), Some(TaskId(1)));
    exec.wake(TaskId(1));
    assert_eq!(exec.next_ready(), Some(TaskId(2)));
    exec.complete(TaskId(2));
    exec.wake(TaskId(2));
    assert_eq!(exec.next_ready(), Some(TaskId(3)));
    assert_eq!(exec.next_ready(), Some(TaskId(1)));
    // The identifier of the finished task is passed over.
    assert_eq!(exec.next_ready(), None);
    assert!(exec.is_idle());
    assert!(exec.has_task(TaskId(1)));
    assert!(!exec.has_task(TaskId(2)));
}

#[test]
fn run_queue_fills_at_its_capacity() {
    let mut exec = Executor::new();
    exec.spawn(TaskId(0));
    for _ in 1..0xff {
        assert!(!exec.queue_is_full());
        exec.wake(TaskId(0));
    }
    assert!(exec.queue_is_full());
}

#[test]
fn task_ids_rise() {
    let mut ids = TaskIds::new();
    assert!(ids.has_next());
    assert_eq!(ids.fresh(), TaskId(0));
    assert_eq!(ids.fresh(), TaskId(1));
    assert_eq!(ids.fresh(), TaskId(2));
    assert_eq!(TaskId::new(&mut ids), TaskId(3));
    assert_eq!(ids.fresh(), TaskId(4));
}

#[test]
fn pit_reload_values() {
    assert_eq!(reload_value(1000), 1193);
    assert_eq!(reload_value(100), 11931);
    assert_eq!(reload_value(19), 62799);
    assert_eq!(reload_value(18), 65535);
    assert_eq!(reload_value(0), 65535);
    assert_eq!(reload_value(65535), 18);
    assert_eq!(reload_bytes(1193), (0xa9, 0x04));
}

#[test]
fn pit_counts_ticks_and_whole_seconds() {
    let mut pit = Pit::new();
    assert_eq!(pit.init(1000), 1193);
    assert_eq!(run(&mut pit, 999), 0);
    assert_eq!(pit.ticks(), 999);
    assert_eq!(pit.get_secs(), 0);
    assert_eq!(pit.get_milis(), 999);
    pit.tick();
    assert_eq!(pit.get_secs(), 1);
    assert_eq!(pit.get_milis(), 1000);
    run(&mut pit, 1500);
    assert_eq!(pit.get_milis(), 2500);
    assert_eq!(pit.get_secs(), 2);
}

#[test]
fn pit_at_its_lowest_frequency() {
    let mut pit = Pit::new();
    run(&mut pit, 18);
    assert_eq!(pit.get_secs(), 1);
    assert_eq!(pit.get_milis(), 1000);
    pit.tick();
    assert_eq!(pit.get_milis(), 19 * 1000 / 18);
    assert_eq!(pit.init(5), 65535);
    assert_eq!(pit.get_milis(), 19 * 1000 / 18);
}

#[test]
fn pit_reports_a_reached_deadline() {
    let mut pit = pit_at_1khz();
    assert!(!pit.tick());
    pit.notify_in(1000);
    assert_eq!(run(&mut pit, 998), 0);
    assert!(pit.tick());
    assert!(pit.tick());
    pit.reset_notify();
    assert!(!pit.tick());
}

#[test]
fn due_tasks_are_woken_after_the_deadline() {
    let mut pit = pit_at_1khz();
    let mut timers = TimerQueue::new();
    let (a, wa) = counting_waker();
    let (b, wb) = counting_waker();
    assert_eq!(timers.push_timer(1000, wa, &mut pit), 0);
    assert_eq!(timers.push_timer(3000, wb, &mut pit), 0);
    // The earliest deadline is the one the timer watches.
    run(&mut pit, 999);
    assert_eq!(timers.wake_tasks(&mut pit), 0);
    assert!(pit.tick());
    assert_eq!(timers.wake_tasks(&mut pit), 1);
    assert_eq!((woken(&a), woken(&b)), (1, 0));
    assert_eq!(run(&mut pit, 1999), 0);
    assert!(pit.tick());
    assert_eq!(timers.wake_tasks(&mut pit), 1);
    assert_eq!((woken(&a), woken(&b)), (1, 1));
    // Nothing is left, and the deadline is cleared.
    assert!(!pit.tick());
    assert_eq!(timers.wake_tasks(&mut pit), 0);
}

#[test]
fn sleep_ordering() {
    let mut pit = pit_at_1khz();
    let mut timers = TimerQueue::new();
    let first = Sleep::new(50, &pit);
    let second = Sleep::new(100, &pit);
    assert_eq!(first.deadline(), 50);
    assert_eq!(second.deadline(), 100);
    let (a, wa) = counting_waker();
    let (b, wb) = counting_waker();
    assert!(!second.poll(wb, &mut timers, &mut pit));
    assert!(!first.poll(wa, &mut timers, &mut pit));
    let mut polled_a_at = None;
    let mut polled_b_at = None;
    for _ in 0..300 {
        if pit.tick() {
            timers.wake_tasks(&mut pit);
        }
        if polled_a_at.is_none() && woken(&a) == 1 {
            let (_, w) = counting_waker();
            assert!(first.poll(w, &mut timers, &mut pit));
            polled_a_at = Some(pit.get_milis());
        }
        if polled_b_at.is_none() && woken(&b) == 1 {
            let (_, w) = counting_waker();
            assert!(second.poll(w, &mut timers, &mut pit));
            polled_b_at = Some(pit.get_milis());
        }
    }
    assert_eq!(polled_a_at, Some(50));
    assert_eq!(polled_b_at, Some(100));
}

#[test]
fn polling_a_sleep_keeps_the_other_sleepers() {
    let mut pit = pit_at_1khz();
    let mut timers = TimerQueue::new();
    let (a, wa) = counting_waker();
    let (b, wb) = counting_waker();
    let (c, wc) = counting_waker();
    assert!(!Sleep::until_millis(30).poll(wa, &mut timers, &mut pit));
    assert!(!Sleep::until_millis(10).poll(wb, &mut timers, &mut pit));
    assert!(!Sleep::until_millis(20).poll(wc, &mut timers, &mut pit));
    // The timer watches the earliest deadline.
    assert_eq!(run(&mut pit, 9), 0);
    assert!(pit.tick());
    assert_eq!(timers.wake_tasks(&mut pit), 1);
    assert_eq!((woken(&a), woken(&b), woken(&c)), (0, 1, 0));
    run(&mut pit, 9);
    assert!(pit.tick());
    assert_eq!(timers.wake_tasks(&mut pit), 1);
    assert_eq!((woken(&a), woken(&b), woken(&c)), (0, 1, 1));
    run(&mut pit, 9);
    assert!(pit.tick());
    assert_eq!(timers.wake_tasks(&mut pit), 1);
    assert_eq!((woken(&a), woken(&b), woken(&c)), (1, 1, 1));
}

#[test]
fn sleep_in_the_past_is_ready_at_once() {
    let mut pit = pit_at_1khz();
    run(&mut pit, 5000);
    let mut timers = TimerQueue::new();
    let s = Sleep::until_millis(4000);
    let (c, w) = counting_waker();
    assert!(s.poll(w, &mut timers, &mut pit));
    assert_eq!(woken(&c), 0);
    // A timer pushed with a deadline in the past wakes itself.
    let (d, w) = counting_waker();
    assert_eq!(timers.push_timer(4000, w, &mut pit), 1);
    assert_eq!(woken(&d), 1);
}

#[test]
fn interval_does_not_drift() {
    let mut pit = pit_at_1khz();
    let mut timers = TimerQueue::new();
    let mut every = Interval::new(1000, &pit);
    let (_, w) = counting_waker();
    assert!(!every.tick(w, &mut timers, &mut pit));
    // The poll comes late, at 2.5 periods.
    run(&mut pit, 2500);
    let (_, w) = counting_waker();
    assert!(every.tick(w, &mut timers, &mut pit));
    // The next deadline is one period after the last, which is reached already.
    let (_, w) = counting_waker();
    assert!(every.tick(w, &mut timers, &mut pit));
    // The one after that is in the future.
    let (_, w) = counting_waker();
    assert!(!every.tick(w, &mut timers, &mut pit));
    run(&mut pit, 500);
    let (_, w) = counting_waker();
    assert!(every.tick(w, &mut timers, &mut pit));
}

#[test]
fn rx_cursor_advances_aligned_and_wraps() {
    for (old, len) in [(0usize, 64u16), (0, 65), (100, 1514), (8188, 64), (8000, 1500), (4, 0xffff)] {
        let expected = ((old + len as usize + 4 + 3) & !3) % 8192;
        assert_eq!(next_cursor(old, len), expected);
        assert_eq!(advanced(old, len), (old + len as usize + 4 + 3) & !3);
    }
    assert_eq!(next_cursor(0, 64), 68);
    assert_eq!(next_cursor(0, 65), 72);
    assert_eq!(next_cursor(8188, 64), 64);
    assert_eq!(capr(68), 52);
    assert_eq!(capr(8256), 8240);
    assert_eq!(capr(0), 0xfff0);
}

#[test]
fn frame_is_taken_without_header_and_checksum() {
    let mut buffer = vec![0u8; RX_BUF_TOTAL];
    assert_eq!(buffer.len(), 8192 + 16 + 1500);
    let cursor = 100;
    buffer[cursor] = 0x01;
    buffer[cursor + 1] = 0x20;
    buffer[cursor + 2] = 72;
    buffer[cursor + 3] = 0;
    for i in 0..64 {
        buffer[cursor + 4 + i] = i as u8 + 1;
    }
    let got = read_frame(&buffer, cursor).expect("the frame fits");
    assert_eq!(got.status, 0x2001);
    assert_eq!(got.frame, (1..=64u8).collect::<Vec<u8>>());
    assert_eq!(got.cursor, 176);
    assert_eq!(got.capr, 160);
}

#[test]
fn frame_that_does_not_fit_is_not_taken() {
    let mut buffer = vec![0u8; RX_BUF_TOTAL];
    // Shorter than the card ever declares.
    buffer[2] = 63;
    assert!(read_frame(&buffer, 0).is_none());
    // Longer than what is left of the buffer.
    buffer[8000 + 2] = 0xff;
    buffer[8000 + 3] = 0xff;
    assert!(read_frame(&buffer, 8000).is_none());
    // No room for the header.
    assert!(read_frame(&[0u8; 3], 0).is_none());
    assert!(read_frame(&[0u8; 100], 98).is_none());
}

#[test]
fn transmit_slots_go_round() {
    assert_eq!(next_tx_slot(0), 1);
    assert_eq!(next_tx_slot(1), 2);
    assert_eq!(next_tx_slot(2), 3);
    assert_eq!(next_tx_slot(3), 0);
    assert_eq!(tx_len_word(60), 60);
    assert_eq!(tx_len_word(0x1234), 0x234);
    assert_eq!(tx_data_port(0xc000, 0), 0xc020);
    assert_eq!(tx_data_port(0xc000, 3), 0xc02c);
    assert_eq!(tx_cmd_port(0xc000, 0), 0xc010);
    assert_eq!(tx_cmd_port(0xc000, 2), 0xc018);
    assert_eq!(tx_cmd_port(0xfff8, 3), 0x0014);
}

#[test]
fn interrupt_status_is_read() {
    let plan = isr_plan(0x0001);
    assert!(plan.drain_rx && !plan.tx_error && !plan.rx_error);
    let plan = isr_plan(0x000a);
    assert!(!plan.drain_rx && plan.tx_error && plan.rx_error);
    assert_eq!(INT_MASK, 0x0001 | 0x0002 | 0x0004 | 0x0008 | 0x0010 | 0x0080 | 0x8000);
    assert_eq!(RCR_CONFIG, 0x02 | 0x08 | 0x80 | 0x700 | 0xe000);
}
