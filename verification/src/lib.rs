//! A fixed-window rate limiter: at most a fixed number of operations in each
//! interval of a fixed length.
//!
//! * `window` is the mathematics: the state of a window and how each
//!   operation changes it.
//! * `simple` is the throttler itself, whose every operation is proved to
//!   change the state as `window` says.
//! * `schedule` states and proves what follows for whole runs of calls: the
//!   quota of each window, the burst and the pause after it, and the steady
//!   timing of back-to-back calls.
//! * `clock` holds what is taken on trust from the standard library's clock.
//!
//! The throttler never sleeps by itself. A caller asks for a slot with
//! `claim`; where the answer is `Delayed`, the caller sleeps that long and
//! calls `resume`.

pub mod clock;
pub mod schedule;
pub mod simple;
pub mod window;
