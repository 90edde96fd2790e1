//! The programmable interval timer: the reload value for a frequency, the
//! tick counter, and the deadline at which sleeping tasks are due.

use vstd::prelude::*;

verus! {

/// The frequency of the timer's oscillator, in hertz.
pub const RELOAD_VALUE: u64 = 1_193_182;

/// The lowest frequency that the timer can be set to, in hertz.
pub const MIN_FREQ: u64 = 18;

/// The frequency that a request for `freq` hertz sets: never under 18.
pub open spec fn spec_freq(freq: u16) -> u64 {
    if freq < 18 {
        18
    } else {
        freq as u64
    }
}

/// The reload value for `freq` hertz: the oscillator's frequency divided by
/// the frequency set, kept to 16 bits.
pub open spec fn spec_reload_value(freq: u16) -> u16 {
    if 1_193_182u64 / spec_freq(freq) > 0xffff {
        0xffff
    } else {
        (1_193_182u64 / spec_freq(freq)) as u16
    }
}

/// The reload value that sets the timer to `freq` hertz.
pub fn reload_value(freq: u16) -> (r: u16)
    ensures
        r == spec_reload_value(freq),
{
    let freq: u64 = if freq < 18 {
        MIN_FREQ
    } else {
        freq as u64
    };
    let reload: u64 = RELOAD_VALUE / freq;
    if reload > 0xffff {
        0xffff
    } else {
        reload as u16
    }
}

/// The two bytes in which the reload value is written to the timer, low
/// byte first.
pub fn reload_bytes(reload: u16) -> (r: (u8, u8))
    ensures
        r.0 == reload % 256,
        r.1 == reload / 256,
{
    ((reload % 256) as u8, (reload / 256) as u8)
}

/// The milliseconds that `tick` ticks at `freq` hertz come to, rounded down
/// and kept to 64 bits.
pub open spec fn spec_millis(tick: u64, freq: u64) -> u64 {
    ((tick * 1000 / freq as int) % 0x1_0000_0000_0000_0000) as u64
}

/// The timer's state.
pub struct Pit {
    tick_freq: u64,
    tick: u64,
    notify_at: u64,
}

impl Pit {
    /// The frequency of the ticks, in hertz.
    pub closed spec fn freq(&self) -> u64 {
        self.tick_freq
    }

    /// The ticks since boot.
    pub closed spec fn spec_ticks(&self) -> u64 {
        self.tick
    }

    /// The deadline at which sleeping tasks are due, in milliseconds since
    /// boot; zero for none.
    pub closed spec fn deadline(&self) -> u64 {
        self.notify_at
    }

    /// The frequency is never under 18 hertz.
    pub open spec fn wf(&self) -> bool {
        self.freq() >= 18
    }

    /// The milliseconds since boot.
    pub open spec fn millis(&self) -> u64 {
        spec_millis(self.spec_ticks(), self.freq())
    }

    /// A timer at 18 hertz that has not ticked and has no deadline.
    pub fn new() -> (r: Self)
        ensures
            r.wf(),
            r.freq() == 18,
            r.spec_ticks() == 0,
            r.deadline() == 0,
    {
        Pit { tick_freq: MIN_FREQ, tick: 0, notify_at: 0 }
    }

    /// Sets the frequency and returns the reload value to program.
    pub fn init(&mut self, freq: u16) -> (r: u16)
        ensures
            final(self).wf(),
            final(self).freq() == spec_freq(freq),
            final(self).spec_ticks() == old(self).spec_ticks(),
            final(self).deadline() == old(self).deadline(),
            r == spec_reload_value(freq),
    {
        self.tick_freq = if freq < 18 {
            MIN_FREQ
        } else {
            freq as u64
        };
        reload_value(freq)
    }

    /// Counts one tick, and says whether sleeping tasks are due: a deadline
    /// is set and reached.
    pub fn tick(&mut self) -> (due: bool)
        requires
            old(self).wf(),
        ensures
            final(self).wf(),
            final(self).freq() == old(self).freq(),
            final(self).deadline() == old(self).deadline(),
            final(self).spec_ticks() == old(self).spec_ticks().wrapping_add(1),
            due == (final(self).deadline() != 0 && final(self).deadline() <= final(self).millis()),
    {
        self.tick = self.tick.wrapping_add(1);
        self.notify_at != 0 && self.notify_at <= self.get_milis()
    }

    /// The seconds since boot.
    pub fn get_secs(&self) -> (r: u64)
        requires
            self.wf(),
        ensures
            r == self.spec_ticks() / self.freq(),
    {
        self.tick / self.tick_freq
    }

    /// The milliseconds since boot.
    pub fn get_milis(&self) -> (r: u64)
        requires
            self.wf(),
        ensures
            r == self.millis(),
    {
        let scaled: u128 = self.tick as u128 * 1000;
        ((scaled / self.tick_freq as u128) % 0x1_0000_0000_0000_0000) as u64
    }

    /// The ticks since boot.
    pub fn ticks(&self) -> (r: u64)
        ensures
            r == self.spec_ticks(),
    {
        self.tick
    }

    /// Sets the deadline to `milis`, kept to 64 bits, whatever it was.
    pub fn notify_in(&mut self, milis: u128)
        ensures
            final(self).deadline() == milis % 0x1_0000_0000_0000_0000,
            final(self).freq() == old(self).freq(),
            final(self).spec_ticks() == old(self).spec_ticks(),
    {
        self.notify_at = (milis % 0x1_0000_0000_0000_0000) as u64;
    }

    /// Clears the deadline.
    pub fn reset_notify(&mut self)
        ensures
            final(self).deadline() == 0,
            final(self).freq() == old(self).freq(),
            final(self).spec_ticks() == old(self).spec_ticks(),
    {
        self.notify_at = 0;
    }
}

/// At a thousand hertz and above the milliseconds never pass what 64 bits
/// hold, and at a thousand hertz they are the ticks.
pub proof fn lemma_millis_never_wrap(ticks: u64, freq: u64)
    requires
        freq >= 1000,
    ensures
        spec_millis(ticks, freq) == ticks * 1000 / freq as int,
        spec_millis(ticks, freq) <= ticks,
        freq == 1000 ==> spec_millis(ticks, freq) == ticks,
{
    assert(ticks * 1000 / freq as int <= ticks) by (nonlinear_arith)
        requires
            freq >= 1000,
            ticks >= 0,
    ;
    assert(ticks * 1000 / freq as int >= 0) by (nonlinear_arith)
        requires
            freq >= 1000,
            ticks >= 0,
    ;
}

/// The milliseconds never run backwards while the ticks are counted up, at
/// a thousand hertz and above.
pub proof fn lemma_millis_monotone(a: u64, b: u64, freq: u64)
    requires
        freq >= 1000,
        a <= b,
    ensures
        spec_millis(a, freq) <= spec_millis(b, freq),
{
    lemma_millis_never_wrap(a, freq);
    lemma_millis_never_wrap(b, freq);
    assert(a * 1000 / freq as int <= b * 1000 / freq as int) by (nonlinear_arith)
        requires
            freq >= 1000,
            0 <= a <= b,
    ;
}

} // verus!
