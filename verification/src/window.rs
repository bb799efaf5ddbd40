//! The fixed window as a mathematical object: what a throttler holds, and how
//! each operation changes it. Every instant is a count of nanoseconds on one
//! monotonic clock.

use vstd::prelude::*;

verus! {

/// What a throttler is to a proof.
pub struct WindowState {
    /// Operations allowed in each window.
    pub limit: nat,
    /// Length of a window.
    pub interval: nat,
    /// Operations still allowed in the current window.
    pub remaining: nat,
    /// The instant at which the current window began.
    pub window_start: nat,
}

impl WindowState {
    /// No window ever holds more slots than the limit.
    pub open spec fn wf(self) -> bool {
        self.remaining <= self.limit
    }

    /// A full window that begins at `at`.
    pub open spec fn opened(limit: nat, interval: nat, at: nat) -> WindowState {
        WindowState { limit, interval, remaining: limit, window_start: at }
    }

    /// Time gone by in the current window at `now`. A reading that lies before
    /// the window's start counts as no time at all.
    pub open spec fn elapsed(self, now: nat) -> nat {
        if now >= self.window_start {
            (now - self.window_start) as nat
        } else {
            0
        }
    }

    /// The window is over at `now`: strictly more than the interval has gone by.
    pub open spec fn expired(self, now: nat) -> bool {
        self.elapsed(now) > self.interval
    }

    /// A caller that arrives at `now` has to pause: the window still runs, the
    /// exact end of the interval included, and no slot is left in it.
    pub open spec fn blocks(self, now: nat) -> bool {
        !self.expired(now) && self.remaining == 0
    }

    /// How long the window still runs at `now`.
    pub open spec fn delay(self, now: nat) -> nat {
        if self.expired(now) {
            0
        } else {
            (self.interval - self.elapsed(now)) as nat
        }
    }

    /// A fresh window that begins at `now`, with every slot free.
    pub open spec fn restarted(self, now: nat) -> WindowState {
        WindowState { remaining: self.limit, window_start: now, ..self }
    }

    /// One slot fewer. Where none is left, which only a limit of zero brings
    /// about, the count stays at zero.
    pub open spec fn consumed(self) -> WindowState {
        WindowState {
            remaining: if self.remaining > 0 {
                (self.remaining - 1) as nat
            } else {
                0
            },
            ..self
        }
    }

    /// The state after a caller arrived at `now`. An expired window is replaced
    /// by a fresh one from which the caller takes the first slot; a window that
    /// blocks is left as it is; otherwise the caller takes a slot.
    pub open spec fn claimed(self, now: nat) -> WindowState {
        if self.expired(now) {
            self.restarted(now).consumed()
        } else if self.remaining == 0 {
            self
        } else {
            self.consumed()
        }
    }

    /// The state after a caller that had to pause woke at `now`: a fresh window
    /// begins there, and the caller takes its first slot.
    pub open spec fn resumed(self, now: nat) -> WindowState {
        self.restarted(now).consumed()
    }

    /// The state after one complete blocking call that arrived at `now` and,
    /// where it had to pause, woke at `woke`.
    pub open spec fn waited(self, now: nat, woke: nat) -> WindowState {
        if self.blocks(now) {
            self.resumed(woke)
        } else {
            self.claimed(now)
        }
    }

    /// The instant at which that blocking call returns.
    pub open spec fn returns_at(self, now: nat, woke: nat) -> nat {
        if self.blocks(now) {
            woke
        } else {
            now
        }
    }
}

/// One blocking call on the clock, that is, one that arrives no earlier than
/// its window began and whose pause, if it makes one, is not cut short.
/// Either it takes a slot of the running window and returns at once, or it
/// begins a new window at the instant it returns, which is no earlier than the
/// end of the old one, and takes the first slot of that. So the start of the
/// window never moves back, and the slots left only grow fewer while a window
/// runs. Limit and interval never change, no window holds more slots than the
/// limit, and with any limit but zero the slot that is taken was there.
pub proof fn lemma_call_step(s: WindowState, now: nat, woke: nat)
    requires
        s.wf(),
        s.window_start <= now,
        s.blocks(now) ==> woke >= now + s.delay(now),
    ensures
        s.waited(now, woke).wf(),
        s.waited(now, woke).limit == s.limit,
        s.waited(now, woke).interval == s.interval,
        s.returns_at(now, woke) >= now,
        s.window_start <= s.waited(now, woke).window_start <= s.returns_at(now, woke),
        s.expired(now) || s.blocks(now) ==> {
            &&& s.waited(now, woke) == s.restarted(s.returns_at(now, woke)).consumed()
            &&& s.returns_at(now, woke) >= s.window_start + s.interval
            &&& s.limit > 0 ==> s.waited(now, woke).remaining == s.limit - 1
        },
        !s.expired(now) && !s.blocks(now) ==> {
            &&& s.waited(now, woke).window_start == s.window_start
            &&& s.waited(now, woke).remaining + 1 == s.remaining
            &&& s.returns_at(now, woke) == now
        },
{
}

/// Restart resets: after a restart at any instant, whatever was left of the
/// old window, the next caller is let through at once, whenever it arrives, and
/// takes the first slot of a fresh window. This holds for every limit but zero.
pub proof fn lemma_restart_resets(s: WindowState, at: nat, now: nat, woke: nat)
    requires
        s.limit > 0,
    ensures
        !s.restarted(at).blocks(now),
        s.restarted(at).returns_at(now, woke) == now,
        s.restarted(at).waited(now, woke).remaining == s.limit - 1,
{
}

} // verus!
