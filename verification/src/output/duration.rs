//! How long entries ran, and how that is written.

use vstd::prelude::*;

use crate::models::{EntryView, TimeEntry};
use crate::text::push_char;
use crate::time::{LocalDateTime, MAX_ABS_SECS, NANOS_PER_SEC};
use vstd::string::StringExecFns;

verus! {

/// The character of a decimal digit.
pub open spec fn digit_char(d: nat) -> char {
    (('0' as int) + d) as char
}

/// The decimal text of a natural number, without leading zeros.
pub open spec fn decimal(n: nat) -> Seq<char>
    decreases n,
{
    if n < 10 {
        seq![digit_char(n)]
    } else {
        decimal(n / 10).push(digit_char(n % 10))
    }
}

/// The decimal text of `n`, as `Display` writes an integer.
pub fn decimal_string(n: u64) -> (r: String)
    ensures
        r@ == decimal(n as nat),
    decreases n,
{
    if n < 10 {
        let mut r = String::new();
        push_char(&mut r, ((n as u8) + 48) as char);
        r
    } else {
        let mut r = decimal_string(n / 10);
        push_char(&mut r, (((n % 10) as u8) + 48) as char);
        r
    }
}

/// The whole minutes of a duration in nanoseconds; none for a duration
/// that is not positive.
pub open spec fn whole_minutes(nanos: int) -> nat {
    if nanos > 0 {
        (nanos / (60 * NANOS_PER_SEC as int)) as nat
    } else {
        0
    }
}

/// The largest duration, in nanoseconds, that `chrono`'s `TimeDelta`
/// holds: `i64::MAX` milliseconds.
pub const MAX_DELTA_NANOS: i128 = 9_223_372_036_854_775_807_000_000;

/// The whole minutes of a duration in nanoseconds, as
/// `num_minutes().max(0)` counts them.
pub fn minutes_of(nanos: i128) -> (r: u64)
    requires
        -MAX_DELTA_NANOS <= nanos <= MAX_DELTA_NANOS,
    ensures
        r == whole_minutes(nanos as int),
{
    if nanos > 0 {
        let m: i128 = nanos / 60_000_000_000;
        proof {
            vstd::arithmetic::div_mod::lemma_div_is_ordered(
                nanos as int,
                MAX_DELTA_NANOS as int,
                60_000_000_000,
            );
        }
        m as u64
    } else {
        0
    }
}

/// A duration of `minutes` written as hours and minutes: `<h>h <m>m`, or
/// `<h>.0 hours` on a whole hour.
pub open spec fn human_duration(minutes: nat) -> Seq<char> {
    let hours = minutes / 60;
    let rest = minutes % 60;
    if rest == 0 {
        decimal(hours) + ".0 hours"@
    } else {
        decimal(hours) + "h "@ + decimal(rest) + "m"@
    }
}

/// Writes a duration of `minutes` as hours and minutes.
pub fn format_human_duration(minutes: u64) -> (r: String)
    ensures
        r@ == human_duration(minutes as nat),
{
    let hours = minutes / 60;
    let rest = minutes % 60;
    let mut r = decimal_string(hours);
    if rest == 0 {
        r.append(".0 hours");
    } else {
        r.append("h ");
        r.append(decimal_string(rest).as_str());
        r.append("m");
    }
    r
}

/// How long an entry ran, in nanoseconds: to its end, or to `now` while
/// it runs.
pub open spec fn entry_nanos(e: EntryView, now: LocalDateTime) -> int {
    match e.end_time {
        Some(end) => e.start_time.nanos_until(end),
        None => e.start_time.nanos_until(now),
    }
}

/// How long an entry ran, in nanoseconds.
pub fn entry_duration(entry: &TimeEntry, now: &LocalDateTime) -> (r: i128)
    ensures
        r == entry_nanos(entry@, *now),
        -4 * MAX_ABS_SECS * NANOS_PER_SEC <= r <= 4 * MAX_ABS_SECS * NANOS_PER_SEC,
{
    match &entry.end_time {
        Some(end) => entry.start_time.nanos_to(end),
        None => entry.start_time.nanos_to(now),
    }
}

} // verus!
