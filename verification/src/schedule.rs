//! Runs of blocking calls, and what the fixed window guarantees of them.
//!
//! A blocking call asks for a slot when it arrives and, where the window
//! blocks, pauses and resumes. A run is a sequence of such calls on one
//! throttler, each written down as the clock readings it saw.

use crate::window::lemma_call_step;
use crate::window::WindowState;
use vstd::prelude::*;

verus! {

/// One blocking call, as the clock saw it.
pub struct Call {
    /// The reading at which the caller arrived.
    pub now: nat,
    /// The reading at which it woke, if it had to pause; otherwise without meaning.
    pub woke: nat,
}

/// The state after the first `k` calls of a run that begins in state `s`.
pub open spec fn state_after(s: WindowState, calls: Seq<Call>, k: nat) -> WindowState
    decreases k,
{
    if k == 0 {
        s
    } else {
        let c = calls[k - 1];
        state_after(s, calls, (k - 1) as nat).waited(c.now, c.woke)
    }
}

/// Call `k` of the run had to pause.
pub open spec fn pauses(s: WindowState, calls: Seq<Call>, k: nat) -> bool {
    state_after(s, calls, k).blocks(calls[k as int].now)
}

/// Call `k` of the run began a new window: it found the old one expired, or
/// used up.
pub open spec fn opens_window(s: WindowState, calls: Seq<Call>, k: nat) -> bool {
    state_after(s, calls, k).expired(calls[k as int].now) || pauses(s, calls, k)
}

/// The instant at which call `k` of the run returns.
pub open spec fn return_of(s: WindowState, calls: Seq<Call>, k: nat) -> nat {
    let c = calls[k as int];
    state_after(s, calls, k).returns_at(c.now, c.woke)
}

/// The latest instant known to have passed when call `k` arrives: the return
/// of the call before it, or the start of the first window.
pub open spec fn clock_before(s: WindowState, calls: Seq<Call>, k: nat) -> nat {
    if k == 0 {
        s.window_start
    } else {
        return_of(s, calls, (k - 1) as nat)
    }
}

/// Call `k` keeps to the clock: it arrives no earlier than the instant before
/// it, and where it pauses, it wakes no earlier than the window ends.
pub open spec fn on_clock(s: WindowState, calls: Seq<Call>, k: nat) -> bool {
    let c = calls[k as int];
    &&& c.now >= clock_before(s, calls, k)
    &&& pauses(s, calls, k) ==> c.woke >= c.now + state_after(s, calls, k).delay(c.now)
}

/// Every call of the run keeps to the clock: time never runs backwards, and no
/// pause is cut short.
pub open spec fn punctual(s: WindowState, calls: Seq<Call>) -> bool {
    forall|k: nat| k < calls.len() ==> #[trigger] on_clock(s, calls, k)
}

/// Call `k` arrives at the very instant before it, and where it pauses, it
/// wakes exactly when the window ends.
pub open spec fn on_the_dot(s: WindowState, calls: Seq<Call>, k: nat) -> bool {
    let c = calls[k as int];
    &&& c.now == clock_before(s, calls, k)
    &&& pauses(s, calls, k) ==> c.woke == c.now + state_after(s, calls, k).delay(c.now)
}

/// The calls of the run follow each other without any delay of their own, and
/// every pause is exact.
pub open spec fn back_to_back(s: WindowState, calls: Seq<Call>) -> bool {
    forall|k: nat| k < calls.len() ==> #[trigger] on_the_dot(s, calls, k)
}

/// Along a punctual run the state stays well formed, limit and interval stay
/// as they were, and no window begins later than the clock stands.
pub proof fn lemma_run_invariant(s: WindowState, calls: Seq<Call>, k: nat)
    requires
        s.wf(),
        punctual(s, calls),
        k <= calls.len(),
    ensures
        state_after(s, calls, k).wf(),
        state_after(s, calls, k).limit == s.limit,
        state_after(s, calls, k).interval == s.interval,
        state_after(s, calls, k).window_start <= clock_before(s, calls, k),
    decreases k,
{
    if k > 0 {
        let j = (k - 1) as nat;
        lemma_run_invariant(s, calls, j);
        assert(on_clock(s, calls, j));
        lemma_call_step(state_after(s, calls, j), calls[j as int].now, calls[j as int].woke);
    }
}

/// Between two points `a <= k` of a punctual run the start of the window
/// never moves back: either the window is still the one that ran at `a`, and
/// each call since has taken one of its slots, or a later window runs, which
/// began no earlier than that one ended.
pub proof fn lemma_window_since(s: WindowState, calls: Seq<Call>, a: nat, k: nat)
    requires
        s.wf(),
        punctual(s, calls),
        a <= k <= calls.len(),
    ensures
        state_after(s, calls, k).window_start >= state_after(s, calls, a).window_start,
        ({
            let sa = state_after(s, calls, a);
            let sk = state_after(s, calls, k);
            ||| (sk.window_start == sa.window_start && sk.remaining + (k - a) == sa.remaining)
            ||| sk.window_start >= sa.window_start + s.interval
        }),
    decreases k,
{
    if k > a {
        let j = (k - 1) as nat;
        lemma_window_since(s, calls, a, j);
        lemma_run_invariant(s, calls, j);
        lemma_run_invariant(s, calls, a);
        assert(on_clock(s, calls, j));
        lemma_call_step(state_after(s, calls, j), calls[j as int].now, calls[j as int].woke);
    }
}

/// Window quota: once the slots that a window has left are taken, no further
/// call of a punctual run returns before that window has ended.
pub proof fn lemma_window_quota(s: WindowState, calls: Seq<Call>, j: nat)
    requires
        s.wf(),
        punctual(s, calls),
        s.remaining <= j < calls.len(),
    ensures
        return_of(s, calls, j) >= s.window_start + s.interval,
{
    lemma_window_since(s, calls, 0, j);
    lemma_run_invariant(s, calls, j);
    assert(on_clock(s, calls, j));
    lemma_call_step(state_after(s, calls, j), calls[j as int].now, calls[j as int].woke);
}

/// Quota bound: in a punctual run, count from a call `i` that began a new
/// window. That call and those after it, up to the limit in number, may return
/// within one interval of it; every later call `j` returns a full interval
/// after call `i` or later. So no stretch of one interval that begins with the
/// first call of a window sees more calls return than the limit allows (with a
/// limit of zero: more than the one that opened the window).
pub proof fn lemma_quota_bound(s: WindowState, calls: Seq<Call>, i: nat, j: nat)
    requires
        s.wf(),
        punctual(s, calls),
        i < j < calls.len(),
        j - i >= s.limit,
        opens_window(s, calls, i),
    ensures
        return_of(s, calls, j) >= return_of(s, calls, i) + s.interval,
{
    let a = i + 1;
    lemma_run_invariant(s, calls, i);
    assert(on_clock(s, calls, i));
    lemma_call_step(state_after(s, calls, i), calls[i as int].now, calls[i as int].woke);
    assert(state_after(s, calls, a).window_start == return_of(s, calls, i));
    lemma_window_since(s, calls, a, j);
    lemma_run_invariant(s, calls, j);
    assert(on_clock(s, calls, j));
    lemma_call_step(state_after(s, calls, j), calls[j as int].now, calls[j as int].woke);
}

/// Call `k` arrives while the window that ran at the start of the run has
/// not expired.
pub open spec fn in_first_window(s: WindowState, calls: Seq<Call>, k: nat) -> bool {
    !s.expired(calls[k as int].now)
}

/// Whatever the clock reads, after `k` calls a window has at most `k` slots
/// fewer than it had at the start of the run.
pub proof fn lemma_slots_left(s: WindowState, calls: Seq<Call>, k: nat)
    requires
        s.wf(),
        k <= calls.len(),
        k <= s.remaining,
    ensures
        state_after(s, calls, k).wf(),
        state_after(s, calls, k).limit == s.limit,
        state_after(s, calls, k).remaining + k >= s.remaining,
    decreases k,
{
    if k > 0 {
        lemma_slots_left(s, calls, (k - 1) as nat);
    }
}

/// While every call arrives before the first window has expired, each takes
/// one slot of that window, as long as it has any.
pub proof fn lemma_same_window(s: WindowState, calls: Seq<Call>, k: nat)
    requires
        k <= calls.len(),
        k <= s.remaining,
        forall|i: nat| i < k ==> #[trigger] in_first_window(s, calls, i),
    ensures
        state_after(s, calls, k) == (WindowState { remaining: (s.remaining - k) as nat, ..s }),
    decreases k,
{
    if k > 0 {
        let j = (k - 1) as nat;
        lemma_same_window(s, calls, j);
        assert(in_first_window(s, calls, j));
    }
}

/// Burst, then block. Of any run, the first calls, as many as the window has
/// slots left (in a full window: as many as the limit), return at once,
/// whatever the clock reads. If these and the next call all arrive before that
/// window has expired, the next call finds it used up and has to pause for
/// what is left of the interval.
pub proof fn lemma_burst_then_block(s: WindowState, calls: Seq<Call>)
    requires
        s.wf(),
        s.remaining < calls.len(),
    ensures
        forall|k: nat| k < s.remaining ==> !#[trigger] pauses(s, calls, k),
        forall|k: nat| k < s.remaining ==> #[trigger] return_of(s, calls, k) == calls[k as int].now,
        (forall|k: nat| k <= s.remaining ==> #[trigger] in_first_window(s, calls, k)) ==> {
            let c = calls[s.remaining as int];
            let p = state_after(s, calls, s.remaining);
            &&& p == (WindowState { remaining: 0, ..s })
            &&& pauses(s, calls, s.remaining)
            &&& p.delay(c.now) == s.interval - s.elapsed(c.now)
        },
{
    assert forall|k: nat| k < s.remaining implies !#[trigger] pauses(s, calls, k) by {
        lemma_slots_left(s, calls, k);
    }
    assert forall|k: nat| k < s.remaining implies #[trigger] return_of(s, calls, k)
        == calls[k as int].now by {
        lemma_slots_left(s, calls, k);
    }
    if forall|k: nat| k <= s.remaining ==> #[trigger] in_first_window(s, calls, k) {
        lemma_same_window(s, calls, s.remaining);
        assert(in_first_window(s, calls, s.remaining));
    }
}

/// Division and remainder of a number and of the one before it.
proof fn lemma_div_mod_step(k: nat, d: nat)
    requires
        k > 0,
        d > 0,
    ensures
        k % d == 0 ==> (k - 1) % (d as int) == d - 1 && (k - 1) / (d as int) + 1 == k / d,
        k % d != 0 ==> (k - 1) % (d as int) + 1 == k % d && (k - 1) / (d as int) == k / d,
{
    let q = k / d;
    let r = k % d;
    vstd::arithmetic::div_mod::lemma_fundamental_div_mod(k as int, d as int);
    if r == 0 {
        assert(k - 1 == (q - 1) * d + (d - 1)) by (nonlinear_arith)
            requires
                k == d * q + 0,
        ;
        vstd::arithmetic::div_mod::lemma_fundamental_div_mod_converse(
            k - 1,
            d as int,
            q - 1,
            d - 1,
        );
    } else {
        assert(k - 1 == q * d + (r - 1)) by (nonlinear_arith)
            requires
                k == d * q + r,
        ;
        vstd::arithmetic::div_mod::lemma_fundamental_div_mod_converse(
            k - 1,
            d as int,
            q as int,
            r - 1,
        );
    }
}

/// The number of whole intervals that have gone by when call `k`, counted from
/// zero, of a back-to-back run on a full window returns: as many as the limit
/// goes into `k`. With a limit of zero every call waits for an interval to end.
pub open spec fn intervals_before(limit: nat, k: nat) -> nat {
    if limit == 0 {
        k + 1
    } else {
        k / limit
    }
}

/// The slots that are left when that call has returned.
pub open spec fn slots_after(limit: nat, k: nat) -> nat {
    if limit == 0 {
        0
    } else {
        (limit - 1 - k % limit) as nat
    }
}

/// Steady timing. On a throttler with a full window that begins at `start`,
/// let calls follow each other with no delay of their own and let every pause
/// be exact. Then call `k`, counted from zero, returns at `start` plus as many
/// whole intervals as the limit goes into `k`: the calls come in bursts of the
/// limit, one burst at the start of each interval, for as long as the run
/// goes on, and no window begins early or late. A call pauses exactly where
/// a burst is over: every call whose number the limit divides, but the first.
/// With a limit of zero every call pauses, and one returns at the end of each
/// interval.
pub proof fn lemma_steady_timing(limit: nat, interval: nat, start: nat, calls: Seq<Call>, k: nat)
    requires
        back_to_back(WindowState::opened(limit, interval, start), calls),
        k < calls.len(),
    ensures
        ({
            let s = WindowState::opened(limit, interval, start);
            &&& return_of(s, calls, k) == start + interval * intervals_before(limit, k)
            &&& pauses(s, calls, k) <==> (limit == 0 || (k > 0 && k % limit == 0))
            &&& state_after(s, calls, k + 1) == (WindowState {
                limit,
                interval,
                remaining: slots_after(limit, k),
                window_start: start + interval * intervals_before(limit, k),
            })
        }),
    decreases k,
{
    let s = WindowState::opened(limit, interval, start);
    assert(on_the_dot(s, calls, k));
    if k == 0 {
        if limit > 0 {
            assert(0nat / limit == 0 && 0nat % limit == 0) by (nonlinear_arith)
                requires
                    limit > 0,
            ;
        }
        assert(interval * 0 == 0 && interval * 1 == interval) by (nonlinear_arith);
    } else {
        let j = (k - 1) as nat;
        lemma_steady_timing(limit, interval, start, calls, j);
        if limit > 0 {
            lemma_div_mod_step(k, limit);
        }
        let q = intervals_before(limit, j);
        assert(interval * (q + 1) == interval * q + interval) by (nonlinear_arith);
    }
}

} // verus!
