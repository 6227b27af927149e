//! Time utilities: reading the clock (trusted, at the edge), rendering
//! timestamps and durations as text, measuring elapsed time, and a simple
//! time window.
//!
//! Only the two clock readers and the calendar formatter are trusted;
//! everything that computes on plain timestamps is verified.

use vstd::prelude::*;

use crate::limiter::is_live;
use crate::numtext::dec_digits;
use crate::numtext::u64_to_text;

verus! {

/// What `chrono` renders for a timestamp of `ts` seconds with the pattern
/// `year-month-day hour:minute:second`; a function of the timestamp alone.
pub uninterp spec fn date_text_of(ts: u64) -> Seq<char>;

/// The text `format_duration` produces for `ms` milliseconds: the non-zero
/// leading units among hours, minutes and seconds, then the millisecond
/// remainder.
pub open spec fn spec_format_duration(ms: u64) -> Seq<char> {
    let total = ms / 1000;
    let hours = total / 3600;
    let minutes = (total % 3600) / 60;
    let seconds = total % 60;
    let millis = ms % 1000;
    if hours > 0 {
        dec_digits(hours as nat) + "h "@ + dec_digits(minutes as nat) + "m "@ + dec_digits(
            seconds as nat,
        ) + "s "@ + dec_digits(millis as nat) + "ms"@
    } else if minutes > 0 {
        dec_digits(minutes as nat) + "m "@ + dec_digits(seconds as nat) + "s "@ + dec_digits(
            millis as nat,
        ) + "ms"@
    } else if seconds > 0 {
        dec_digits(seconds as nat) + "s "@ + dec_digits(millis as nat) + "ms"@
    } else {
        dec_digits(millis as nat) + "ms"@
    }
}

/// Time helpers.
pub struct TimeUtils;

impl TimeUtils {
    /// Reads the system clock. Relies on `std::time::SystemTime::now`; the
    /// result is whole seconds since the epoch, and nothing can be promised
    /// of it.
    #[verifier::external_body]
    pub fn current_timestamp() -> u64 {
        match std::time::SystemTime::now().duration_since(std::time::UNIX_EPOCH) {
            Ok(d) => d.as_secs(),
            Err(_) => 0,
        }
    }

    /// Reads the system clock. Relies on `std::time::SystemTime::now`; the
    /// result is whole milliseconds since the epoch, and nothing can be
    /// promised of it.
    #[verifier::external_body]
    pub fn current_timestamp_ms() -> u64 {
        match std::time::SystemTime::now().duration_since(std::time::UNIX_EPOCH) {
            Ok(d) => d.as_millis() as u64,
            Err(_) => 0,
        }
    }

    /// Renders `timestamp` seconds since the epoch as calendar text.
    /// Relies on `chrono::DateTime::from_timestamp` and `format`: the text
    /// depends on the timestamp alone; a timestamp outside chrono's range
    /// is rendered as the epoch itself.
    #[verifier::external_body]
    pub fn format_timestamp(timestamp: u64) -> (r: String)
        ensures
            r@ == date_text_of(timestamp),
    {
        let datetime = chrono::DateTime::from_timestamp(timestamp as i64, 0).unwrap_or_default();
        datetime.format("%Y-%m-%d %H:%M:%S").to_string()
    }

    /// Renders a duration of `ms` milliseconds as text, leading with the
    /// largest non-zero unit.
    pub fn format_duration(ms: u64) -> (r: String)
        ensures
            r@ == spec_format_duration(ms),
    {
        let total: u64 = ms / 1000;
        let hours: u64 = total / 3600;
        let minutes: u64 = (total % 3600) / 60;
        let seconds: u64 = total % 60;
        let millis: u64 = ms % 1000;
        let mut s: String;
        if hours > 0 {
            s = u64_to_text(hours);
            s.append("h ");
            s.append(u64_to_text(minutes).as_str());
            s.append("m ");
            s.append(u64_to_text(seconds).as_str());
            s.append("s ");
            s.append(u64_to_text(millis).as_str());
            s.append("ms");
        } else if minutes > 0 {
            s = u64_to_text(minutes);
            s.append("m ");
            s.append(u64_to_text(seconds).as_str());
            s.append("s ");
            s.append(u64_to_text(millis).as_str());
            s.append("ms");
        } else if seconds > 0 {
            s = u64_to_text(seconds);
            s.append("s ");
            s.append(u64_to_text(millis).as_str());
            s.append("ms");
        } else {
            s = u64_to_text(millis);
            s.append("ms");
        }
        s
    }
}

/// Measures how long something took, against a start time taken from the
/// millisecond clock.
pub struct PerformanceTimer {
    /// What is being measured.
    pub name: String,
    /// The clock reading when the timer was created.
    pub start_ms: u64,
}

impl PerformanceTimer {
    /// A timer for `name` started now, on the system clock.
    pub fn new(name: &str) -> (r: PerformanceTimer)
        ensures
            r.name@ == name@,
    {
        PerformanceTimer { name: name.to_owned(), start_ms: TimeUtils::current_timestamp_ms() }
    }

    /// The time passed between the timer's start and the clock reading
    /// `now_ms`; zero if the clock appears to have gone backwards.
    pub fn elapsed_since(&self, now_ms: u64) -> (r: u64)
        ensures
            r == if now_ms >= self.start_ms {
                now_ms - self.start_ms
            } else {
                0int
            },
    {
        if now_ms >= self.start_ms {
            now_ms - self.start_ms
        } else {
            0
        }
    }

    /// The milliseconds passed since the timer started, read from the
    /// system clock.
    pub fn elapsed_ms(&self) -> u64 {
        self.elapsed_since(TimeUtils::current_timestamp_ms())
    }

    /// The time passed since the timer started, as a standard duration.
    pub fn elapsed(&self) -> core::time::Duration {
        core::time::Duration::from_millis(self.elapsed_ms())
    }
}

/// Relies on `core::time::Duration::from_millis`; the duration itself is
/// opaque here and only carried through to callers.
pub assume_specification[ core::time::Duration::from_millis ](ms: u64) -> core::time::Duration;

/// Wraps work under a deadline. Racing the work against the clock is the
/// caller's affair; the verdict on what came back is decided here.
pub struct TimeoutWrapper;

impl TimeoutWrapper {
    /// The outcome of a run against a deadline of `duration_ms`: what the
    /// work produced if it finished, and a timeout error naming the
    /// deadline if it did not.
    pub fn outcome<T>(finished: Option<T>, duration_ms: u64) -> (r: Result<T, TimeoutError>)
        ensures
            finished matches Some(v) ==> (r matches Ok(w) && w == v),
            finished is None ==> r == Err::<T, TimeoutError>(TimeoutError { duration_ms }),
    {
        match finished {
            Some(v) => Ok(v),
            None => Err(TimeoutError { duration_ms }),
        }
    }
}

/// The error handed out when an externally imposed deadline elapsed.
#[derive(Clone, Copy, Debug, PartialEq, Eq, Structural)]
pub struct TimeoutError {
    /// The deadline that elapsed, in milliseconds.
    pub duration_ms: u64,
}

impl TimeoutError {
    /// A short text for the error, for callers that print it.
    pub fn message(&self) -> (r: String)
        ensures
            r@ == "operation timed out after ms: "@ + dec_digits(self.duration_ms as nat),
    {
        let mut s = "operation timed out after ms: ".to_owned();
        s.append(u64_to_text(self.duration_ms).as_str());
        s
    }
}

/// A fixed-length window starting at some instant.
pub struct TimeWindow {
    /// When the window opened.
    pub start: u64,
    /// How long the window stays open.
    pub duration: u64,
}

impl TimeWindow {
    /// A window of length `duration` opening at `now`.
    pub fn new(duration: u64, now: u64) -> (r: TimeWindow)
        ensures
            r.start == now,
            r.duration == duration,
    {
        TimeWindow { start: now, duration }
    }

    /// Whether `now` still falls inside the window; the instant exactly
    /// `duration` after the start is already outside.
    pub fn is_within_window(&self, now: u64) -> (r: bool)
        ensures
            r == is_live(self.start, now, self.duration),
    {
        let age: u64 = if now >= self.start {
            now - self.start
        } else {
            0
        };
        age < self.duration
    }

    /// How much of the window is left at `now`; zero once it has closed.
    pub fn remaining_time(&self, now: u64) -> (r: u64)
        ensures
            is_live(self.start, now, self.duration) ==> r == self.start + self.duration - (
            if now >= self.start {
                now as int
            } else {
                self.start as int
            }),
            !is_live(self.start, now, self.duration) ==> r == 0,
    {
        let age: u64 = if now >= self.start {
            now - self.start
        } else {
            0
        };
        if age < self.duration {
            self.duration - age
        } else {
            0
        }
    }

    /// Reopens the window at `now`.
    pub fn reset(&mut self, now: u64)
        ensures
            final(self).start == now,
            final(self).duration == old(self).duration,
    {
        self.start = now;
    }
}

} // verus!
