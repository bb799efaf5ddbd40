//! The throttler on instants chosen by the test, in nanoseconds.

use std::time::Duration;
use throttler::simple::Admission;
use throttler::simple::SimpleThrottler;

const SECOND: u128 = 1_000_000_000;
const MILLI: u128 = 1_000_000;

/// One blocking call that arrives at `now` on a clock where every pause is
/// exact. Returns the instant at which the call returns.
fn wait_at(t: &mut SimpleThrottler, now: u128) -> u128 {
    match t.claim_at(now) {
        Admission::Granted => now,
        Admission::Delayed(nanos) => {
            t.resume_at(now + nanos);
            now + nanos
        }
    }
}

/// One blocking call that arrives at `now` and oversleeps by `late`.
fn wait_late(t: &mut SimpleThrottler, now: u128, late: u128) -> u128 {
    match t.claim_at(now) {
        Admission::Granted => now,
        Admission::Delayed(nanos) => {
            t.resume_at(now + nanos + late);
            now + nanos + late
        }
    }
}

#[test]
fn ten_calls_at_four_per_second() {
    let mut t = SimpleThrottler::new(4, Duration::new(1, 0));
    let mut now: u128 = 0;
    let mut returns: Vec<u128> = Vec::new();
    for _ in 0..10 {
        now = wait_at(&mut t, now);
        returns.push(now);
    }
    assert_eq!(
        returns,
        vec![0, 0, 0, 0, SECOND, SECOND, SECOND, SECOND, 2 * SECOND, 2 * SECOND]
    );
    assert_eq!(t.window_start(), 2 * SECOND);
    assert_eq!(t.remaining(), 2);
}

#[test]
fn second_call_is_told_to_pause_for_the_interval() {
    let mut t = SimpleThrottler::new(1, Duration::from_millis(100));
    assert_eq!(t.claim_at(0), Admission::Granted);
    assert_eq!(t.remaining(), 0);
    assert_eq!(t.claim_at(0), Admission::Delayed(100 * MILLI));
    // Being told to pause changes nothing.
    assert_eq!(t.remaining(), 0);
    assert_eq!(t.window_start(), 0);
    // Later in the window, less of it is left.
    assert_eq!(t.claim_at(30 * MILLI), Admission::Delayed(70 * MILLI));
    assert_eq!(t.claim_at(99 * MILLI + 999_999), Admission::Delayed(1));
    t.resume_at(100 * MILLI);
    assert_eq!(t.window_start(), 100 * MILLI);
    assert_eq!(t.remaining(), 0);
}

#[test]
fn restart_in_the_middle_of_a_window() {
    let mut t = SimpleThrottler::new(100, Duration::new(1, 0));
    for i in 0..50u128 {
        assert_eq!(t.claim_at(i), Admission::Granted);
    }
    assert_eq!(t.remaining(), 50);
    t.restart_at(50);
    assert_eq!(t.remaining(), 100);
    assert_eq!(t.window_start(), 50);
    assert_eq!(t.limit(), 100);
    assert_eq!(t.interval(), SECOND);
    assert_eq!(t.claim_at(50), Admission::Granted);
    assert_eq!(t.remaining(), 99);
    assert_eq!(t.window_start(), 50);
}

#[test]
fn restart_lets_the_next_call_through_whatever_was_left() {
    for used in 0..=3u64 {
        let mut t = SimpleThrottler::new(3, Duration::new(1, 0));
        for _ in 0..used {
            assert_eq!(t.claim_at(10), Admission::Granted);
        }
        assert_eq!(t.remaining(), 3 - used);
        t.restart_at(20);
        assert_eq!(t.remaining(), 3);
        assert_eq!(t.claim_at(20), Admission::Granted);
        assert_eq!(t.remaining(), 2);
    }
}

#[test]
fn burst_of_the_limit_then_a_pause() {
    let mut t = SimpleThrottler::new(5, Duration::new(1, 0));
    let arrivals: [u128; 5] = [0, 10, 10, 400 * MILLI, SECOND];
    for (k, now) in arrivals.iter().enumerate() {
        assert_eq!(t.claim_at(*now), Admission::Granted);
        assert_eq!(t.remaining(), 4 - k as u64);
        assert_eq!(t.window_start(), 0);
    }
    let mut u = SimpleThrottler::new(5, Duration::new(1, 0));
    for _ in 0..5 {
        assert_eq!(u.claim_at(250 * MILLI), Admission::Granted);
    }
    assert_eq!(u.claim_at(250 * MILLI), Admission::Delayed(750 * MILLI));
}

#[test]
fn burst_is_let_through_even_where_windows_expire() {
    let mut t = SimpleThrottler::new(3, Duration::new(1, 0));
    assert_eq!(t.claim_at(0), Admission::Granted);
    assert_eq!(t.claim_at(5 * SECOND), Admission::Granted);
    assert_eq!(t.claim_at(9 * SECOND), Admission::Granted);
    assert_eq!(t.window_start(), 9 * SECOND);
    assert_eq!(t.remaining(), 2);
}

#[test]
fn exact_end_of_the_interval_with_a_slot_left() {
    let mut t = SimpleThrottler::new(2, Duration::new(1, 0));
    assert_eq!(t.claim_at(0), Admission::Granted);
    // Exactly one interval has gone by: the window has not expired.
    assert_eq!(t.claim_at(SECOND), Admission::Granted);
    assert_eq!(t.window_start(), 0);
    assert_eq!(t.remaining(), 0);
}

#[test]
fn exact_end_of_the_interval_without_a_slot() {
    let mut t = SimpleThrottler::new(1, Duration::new(1, 0));
    assert_eq!(t.claim_at(0), Admission::Granted);
    // The window has not expired and is used up: a pause of no length.
    assert_eq!(t.claim_at(SECOND), Admission::Delayed(0));
    assert_eq!(t.window_start(), 0);
    assert_eq!(t.remaining(), 0);
    t.resume_at(SECOND);
    assert_eq!(t.window_start(), SECOND);
    assert_eq!(t.remaining(), 0);
}

#[test]
fn one_nanosecond_past_the_interval() {
    let mut t = SimpleThrottler::new(1, Duration::new(1, 0));
    assert_eq!(t.claim_at(0), Admission::Granted);
    assert_eq!(t.claim_at(SECOND + 1), Admission::Granted);
    assert_eq!(t.window_start(), SECOND + 1);
    assert_eq!(t.remaining(), 0);

    let mut u = SimpleThrottler::new(4, Duration::new(1, 0));
    assert_eq!(u.claim_at(0), Admission::Granted);
    assert_eq!(u.claim_at(SECOND + 1), Admission::Granted);
    assert_eq!(u.window_start(), SECOND + 1);
    assert_eq!(u.remaining(), 3);
}

#[test]
fn zero_limit_pauses_every_call() {
    let mut t = SimpleThrottler::new(0, Duration::new(1, 0));
    assert_eq!(t.remaining(), 0);
    assert_eq!(t.claim_at(0), Admission::Delayed(SECOND));
    t.resume_at(SECOND);
    assert_eq!(t.remaining(), 0);
    assert_eq!(t.window_start(), SECOND);
    assert_eq!(t.claim_at(SECOND + 5), Admission::Delayed(SECOND - 5));
    t.restart_at(SECOND + 5);
    assert_eq!(t.remaining(), 0);
    assert_eq!(t.claim_at(SECOND + 5), Admission::Delayed(SECOND));
    // An expired window is replaced, and the caller is let through.
    assert_eq!(t.claim_at(3 * SECOND), Admission::Granted);
    assert_eq!(t.window_start(), 3 * SECOND);
    assert_eq!(t.remaining(), 0);

    let mut returns: Vec<u128> = Vec::new();
    let mut u = SimpleThrottler::new(0, Duration::new(1, 0));
    let mut now: u128 = 0;
    for _ in 0..4 {
        now = wait_at(&mut u, now);
        returns.push(now);
    }
    assert_eq!(returns, vec![SECOND, 2 * SECOND, 3 * SECOND, 4 * SECOND]);
}

#[test]
fn zero_interval() {
    let mut t = SimpleThrottler::with_nanos(2, 0);
    assert_eq!(t.claim_at(0), Admission::Granted);
    assert_eq!(t.claim_at(0), Admission::Granted);
    assert_eq!(t.claim_at(0), Admission::Delayed(0));
    t.resume_at(0);
    assert_eq!(t.remaining(), 1);
    assert_eq!(t.claim_at(1), Admission::Granted);
    assert_eq!(t.window_start(), 1);
    assert_eq!(t.remaining(), 1);
}

#[test]
fn reading_before_the_window_counts_as_no_time() {
    let mut t = SimpleThrottler::new(1, Duration::new(1, 0));
    t.restart_at(500);
    assert_eq!(t.claim_at(100), Admission::Granted);
    assert_eq!(t.window_start(), 500);
    assert_eq!(t.claim_at(100), Admission::Delayed(SECOND));
    assert_eq!(t.claim_at(500), Admission::Delayed(SECOND));
    assert_eq!(t.claim_at(501), Admission::Delayed(SECOND - 1));
}

#[test]
fn largest_instants() {
    let mut t = SimpleThrottler::new(1, Duration::new(u64::MAX, 999_999_999));
    let interval = (u64::MAX as u128) * SECOND + 999_999_999;
    assert_eq!(t.interval(), interval);
    assert_eq!(t.claim_at(u128::MAX), Admission::Granted);
    assert_eq!(t.window_start(), u128::MAX);
    assert_eq!(t.claim_at(u128::MAX), Admission::Delayed(interval));
    t.restart_at(0);
    assert_eq!(t.claim_at(interval), Admission::Granted);
    assert_eq!(t.claim_at(interval), Admission::Delayed(0));
    assert_eq!(t.claim_at(interval + 1), Admission::Granted);
}

#[test]
fn remaining_decreases_within_a_window_and_never_exceeds_the_limit() {
    let mut t = SimpleThrottler::new(7, Duration::from_millis(10));
    let mut now: u128 = 0;
    let mut start = t.window_start();
    let mut left = t.remaining();
    for k in 0..200u128 {
        now = wait_late(&mut t, now + (k % 5) * MILLI, k % 3);
        assert!(t.remaining() <= t.limit());
        assert!(t.window_start() >= start);
        if t.window_start() == start {
            assert_eq!(t.remaining() + 1, left);
        } else {
            assert!(t.window_start() >= start + 10 * MILLI);
            assert_eq!(t.window_start(), now);
            assert_eq!(t.remaining(), 6);
        }
        start = t.window_start();
        left = t.remaining();
        assert_eq!(t.limit(), 7);
        assert_eq!(t.interval(), 10 * MILLI);
    }
}

#[test]
fn no_more_than_the_limit_within_an_interval_of_a_window_start() {
    let limit: usize = 3;
    let interval = 50 * MILLI;
    let mut t = SimpleThrottler::new(3, Duration::from_millis(50));
    let mut now: u128 = 0;
    let mut returns: Vec<u128> = Vec::new();
    let mut opened: Vec<bool> = Vec::new();
    for k in 0..120u128 {
        let before = t.window_start();
        // Uneven arrivals: mostly at once, sometimes after a gap.
        let gap = if k % 11 == 0 { 70 * MILLI } else { (k % 4) * MILLI };
        now = wait_late(&mut t, now + gap, (k % 7) * 1000);
        returns.push(now);
        opened.push(t.window_start() != before);
    }
    let mut windows = 0;
    for i in 0..returns.len() {
        if opened[i] {
            windows += 1;
            assert_eq!(returns[i] >= interval, true);
            for j in (i + limit)..returns.len() {
                assert!(returns[j] >= returns[i] + interval);
            }
        }
    }
    assert!(windows > 10);
    // From the first window on: the call after the limit returns an interval later.
    assert!(returns[limit] >= interval);
}

#[test]
fn steady_timing_over_many_cycles() {
    let limit: u128 = 7;
    let interval = 250 * MILLI;
    let mut t = SimpleThrottler::with_nanos(7, 250 * MILLI);
    let mut now: u128 = 0;
    for k in 0..700u128 {
        let left_before = t.remaining();
        now = wait_at(&mut t, now);
        assert_eq!(now, interval * (k / limit));
        assert_eq!(t.window_start(), interval * (k / limit));
        assert_eq!(t.remaining() as u128, limit - 1 - k % limit);
        assert_eq!(left_before == 0, k > 0 && k % limit == 0);
    }
    assert_eq!(now, 99 * interval);
}

#[test]
fn steady_timing_from_a_later_start() {
    let mut t = SimpleThrottler::new(2, Duration::new(1, 0));
    t.restart_at(5 * SECOND);
    let mut now: u128 = 5 * SECOND;
    let mut returns: Vec<u128> = Vec::new();
    for _ in 0..6 {
        now = wait_at(&mut t, now);
        returns.push(now);
    }
    assert_eq!(
        returns,
        vec![5 * SECOND, 5 * SECOND, 6 * SECOND, 6 * SECOND, 7 * SECOND, 7 * SECOND]
    );
}

#[test]
fn interval_longer_than_any_duration() {
    let mut t = SimpleThrottler::with_nanos(1, u128::MAX);
    assert_eq!(t.interval(), u128::MAX);
    assert_eq!(t.claim_at(7), Admission::Granted);
    assert_eq!(t.claim_at(7), Admission::Delayed(u128::MAX - 7));
    assert_eq!(t.claim_at(u128::MAX), Admission::Delayed(0));
    t.resume_at(u128::MAX);
    assert_eq!(t.window_start(), u128::MAX);
    assert_eq!(t.claim_at(u128::MAX), Admission::Delayed(u128::MAX));
    assert_eq!(t.claim_at(0), Admission::Delayed(u128::MAX));
}

#[test]
fn admission_values_compare_and_copy() {
    let a = Admission::Delayed(5);
    let b = a;
    assert_eq!(a, b);
    assert_ne!(a, Admission::Delayed(6));
    assert_ne!(a, Admission::Granted);
    assert_eq!(format!("{:?}", Admission::Granted), "Granted");
    assert_eq!(format!("{:?}", a.clone()), "Delayed(5)");
}
