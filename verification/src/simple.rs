//! `SimpleThrottler`: the window's counters, driven by the monotonic clock.

use crate::clock::nanos_in;
use crate::window::WindowState;
use std::time::Duration;
use std::time::Instant;
use vstd::prelude::*;

verus! {

/// What a caller that asks for a slot is told.
#[derive(Clone, Copy, Debug, PartialEq, Eq)]
pub enum Admission {
    /// A slot was taken: the operation may go ahead at once.
    Granted,
    /// The window is used up. The caller is to pause for this many
    /// nanoseconds, until the window ends, and then call `resume`.
    Delayed(u128),
}

impl Admission {
    /// This is the answer owed to a caller that arrives at `now` while the
    /// throttler is in state `s`.
    pub open spec fn answers(self, s: WindowState, now: nat) -> bool {
        match self {
            Admission::Granted => !s.blocks(now),
            Admission::Delayed(nanos) => s.blocks(now) && nanos == s.delay(now),
        }
    }
}

/// Allows a number of operations per time interval. It keeps the number of
/// operations left in the current interval, and when that interval began.
///
/// Instants are counted in nanoseconds from the moment the throttler was made.
pub struct SimpleThrottler {
    times: u64,
    interval: u128,
    times_left: u64,
    last_interval: u128,
    epoch: Instant,
}

impl View for SimpleThrottler {
    type V = WindowState;

    closed spec fn view(&self) -> WindowState {
        WindowState {
            limit: self.times as nat,
            interval: self.interval as nat,
            remaining: self.times_left as nat,
            window_start: self.last_interval as nat,
        }
    }
}

impl SimpleThrottler {
    #[verifier::type_invariant]
    spec fn inv(self) -> bool {
        self.times_left <= self.times
    }

    /// Makes a throttler that allows `operations_per_interval` operations in
    /// each interval of length `time_interval`. Its first window is full and
    /// begins now, at instant zero of its own clock.
    ///
    /// With a limit of zero no window ever has a slot: a caller that arrives
    /// while a window runs pauses until it ends, and every caller is let
    /// through as a new window begins, which then has no slot left either.
    pub fn new(operations_per_interval: u64, time_interval: Duration) -> (t: SimpleThrottler)
        ensures
            t@ == WindowState::opened(operations_per_interval as nat, nanos_in(time_interval), 0),
            t@.wf(),
    {
        SimpleThrottler::with_nanos(operations_per_interval, time_interval.as_nanos())
    }

    /// Makes a throttler as `new` does, from the length of the interval in
    /// nanoseconds.
    pub fn with_nanos(operations_per_interval: u64, interval_nanos: u128) -> (t: SimpleThrottler)
        ensures
            t@ == WindowState::opened(operations_per_interval as nat, interval_nanos as nat, 0),
            t@.wf(),
    {
        SimpleThrottler {
            times: operations_per_interval,
            interval: interval_nanos,
            times_left: operations_per_interval,
            last_interval: 0,
            epoch: Instant::now(),
        }
    }

    /// Operations allowed in each window.
    pub fn limit(&self) -> (n: u64)
        ensures
            n == self@.limit,
    {
        self.times
    }

    /// Length of a window, in nanoseconds.
    pub fn interval(&self) -> (n: u128)
        ensures
            n == self@.interval,
    {
        self.interval
    }

    /// Operations still allowed in the current window: never more than the limit.
    pub fn remaining(&self) -> (n: u64)
        ensures
            n == self@.remaining,
            n <= self@.limit,
    {
        proof {
            use_type_invariant(self);
        }
        self.times_left
    }

    /// The instant at which the current window began.
    pub fn window_start(&self) -> (n: u128)
        ensures
            n == self@.window_start,
    {
        self.last_interval
    }

    /// Reads the throttler's clock: nanoseconds since it was made. The reading
    /// depends on the moment of the call, so nothing is promised of it: what
    /// is done with it is proved for every value it can take.
    fn clock(&self) -> u128 {
        self.epoch.elapsed().as_nanos()
    }

    /// Takes one slot, where one is left.
    fn take_slot(&mut self)
        ensures
            final(self)@ == old(self)@.consumed(),
    {
        proof {
            use_type_invariant(&*self);
        }
        if self.times_left > 0 {
            self.times_left = self.times_left - 1;
        }
    }

    /// Begins a fresh window at `now`, with every slot free.
    pub fn restart_at(&mut self, now: u128)
        ensures
            final(self)@ == old(self)@.restarted(now as nat),
            final(self)@.wf(),
    {
        self.times_left = self.times;
        self.last_interval = now;
    }

    /// Asks for a slot at `now`, without ever pausing.
    ///
    /// If the window has expired, a fresh one begins at `now` and its first
    /// slot is taken. If it still runs and has a slot, that slot is taken. If it
    /// still runs and has none, nothing changes and the answer says how long
    /// the window has left: the caller pauses that long and calls `resume`.
    pub fn claim_at(&mut self, now: u128) -> (r: Admission)
        ensures
            final(self)@ == old(self)@.claimed(now as nat),
            final(self)@.wf(),
            r.answers(old(self)@, now as nat),
    {
        proof {
            use_type_invariant(&*self);
        }
        let elapsed: u128 = now.saturating_sub(self.last_interval);
        if elapsed > self.interval {
            self.restart_at(now);
        } else if self.times_left == 0 {
            return Admission::Delayed(self.interval - elapsed);
        }
        self.take_slot();
        Admission::Granted
    }

    /// Ends the pause of a caller that was delayed and woke at `now`: a fresh
    /// window begins there, and its first slot is taken.
    pub fn resume_at(&mut self, now: u128)
        ensures
            final(self)@ == old(self)@.resumed(now as nat),
            final(self)@.wf(),
    {
        self.restart_at(now);
        self.take_slot();
    }

    /// Begins a fresh window now, whatever was left of the old one.
    pub fn restart(&mut self)
        ensures
            exists|now: nat| final(self)@ == #[trigger] old(self)@.restarted(now),
            final(self)@.wf(),
    {
        let now: u128 = self.clock();
        self.restart_at(now);
    }

    /// Begins a fresh window now: another name for `restart`.
    pub fn reset(&mut self)
        ensures
            exists|now: nat| final(self)@ == #[trigger] old(self)@.restarted(now),
            final(self)@.wf(),
    {
        self.restart();
    }

    /// Asks for a slot now, without ever pausing: `claim_at` on the clock's
    /// present reading.
    pub fn claim(&mut self) -> (r: Admission)
        ensures
            exists|now: nat|
                final(self)@ == #[trigger] old(self)@.claimed(now) && r.answers(old(self)@, now),
            final(self)@.wf(),
    {
        let now: u128 = self.clock();
        self.claim_at(now)
    }

    /// Ends the pause of a caller that was delayed: `resume_at` on the clock's
    /// present reading.
    pub fn resume(&mut self)
        ensures
            exists|now: nat| final(self)@ == #[trigger] old(self)@.resumed(now),
            final(self)@.wf(),
    {
        let now: u128 = self.clock();
        self.resume_at(now);
    }
}

} // verus!
