//! Times of day that users type, and the adjustment of stop times.

use vstd::prelude::*;

use crate::error::SiganError;
use crate::text::{is_white_space, is_whitespace, trim, trimmed_chars};
use crate::models::MAX_DAYS;
use crate::time::{LocalDateTime, SECS_PER_DAY, from_local_wall, now};

verus! {

/// An ASCII decimal digit.
pub open spec fn is_digit(c: char) -> bool {
    '0' <= c && c <= '9'
}

/// The value of an ASCII digit.
pub open spec fn digit_value(c: char) -> int {
    (c as int) - ('0' as int)
}

/// `AM` or `PM` written in any case.
pub enum Meridiem {
    Unmarked,
    Am,
    Pm,
}

/// The meridiem that the two characters spell, ignoring case.
pub open spec fn meridiem_of(a: char, b: char) -> Option<Meridiem> {
    if (b == 'm' || b == 'M') && (a == 'a' || a == 'A') {
        Some(Meridiem::Am)
    } else if (b == 'm' || b == 'M') && (a == 'p' || a == 'P') {
        Some(Meridiem::Pm)
    } else {
        None
    }
}

/// The fields of a time of day as typed: hours, minutes, seconds and the
/// meridiem, read from trimmed text of the form
/// `H[H]:MM[:SS][<white space>][am|pm]` (the meridiem in any case), or
/// `None` when the text does not have that form.
pub open spec fn clock_fields(t: Seq<char>) -> Option<(int, int, int, Meridiem)> {
    let hour_digits: int = if t.len() >= 2 && is_digit(t[0]) && t[1] == ':' {
        1
    } else if t.len() >= 3 && is_digit(t[0]) && is_digit(t[1]) && t[2] == ':' {
        2
    } else {
        0
    };
    let p = hour_digits + 1;
    let q = p + 2;
    if hour_digits == 0 || t.len() < q || !is_digit(t[p]) || !is_digit(t[p + 1]) {
        None
    } else {
        let hours = if hour_digits == 1 {
            digit_value(t[0])
        } else {
            10 * digit_value(t[0]) + digit_value(t[1])
        };
        let minutes = 10 * digit_value(t[p]) + digit_value(t[p + 1]);
        let has_seconds = t.len() >= q + 3 && t[q] == ':' && is_digit(t[q + 1]) && is_digit(
            t[q + 2],
        );
        let seconds = if has_seconds {
            10 * digit_value(t[q + 1]) + digit_value(t[q + 2])
        } else {
            0
        };
        let r = if has_seconds {
            q + 3
        } else {
            q
        };
        let n = t.len();
        if r == n {
            Some((hours, minutes, seconds, Meridiem::Unmarked))
        } else if n - r >= 2 && meridiem_of(t[n - 2], t[n - 1]) is Some && (forall|k: int|
            r <= k < n - 2 ==> is_white_space(#[trigger] t[k])) {
            Some((hours, minutes, seconds, meridiem_of(t[n - 2], t[n - 1]).unwrap()))
        } else {
            None
        }
    }
}

/// The seconds since midnight that a typed time of day names, or why it
/// names none: the form is checked first, then an hour above 12 beside AM
/// or PM, then (after PM adds 12 to hours below 12 and 12 AM becomes 0)
/// hours above 23, minutes above 59 and seconds above 59, in that order.
pub open spec fn clock_seconds(value: Seq<char>) -> Result<int, SiganError> {
    match clock_fields(trim(value)) {
        None => Err(SiganError::InvalidTimeFormat),
        Some((h, m, s, mer)) => {
            if !(mer is Unmarked) && h > 12 {
                Err(SiganError::HoursExceed12)
            } else {
                let hours = if mer is Pm && h < 12 {
                    h + 12
                } else if mer is Am && h == 12 {
                    0
                } else {
                    h
                };
                if hours > 23 {
                    Err(SiganError::HoursExceed23)
                } else if m > 59 {
                    Err(SiganError::MinutesExceed59)
                } else if s > 59 {
                    Err(SiganError::SecondsExceed59)
                } else {
                    Ok(hours * 3600 + m * 60 + s)
                }
            }
        },
    }
}

fn is_ascii_digit(c: char) -> (r: bool)
    ensures
        r == is_digit(c),
{
    '0' <= c && c <= '9'
}

fn digit(c: char) -> (r: u32)
    requires
        is_digit(c),
    ensures
        r == digit_value(c),
        r <= 9,
{
    (c as u32) - ('0' as u32)
}

/// Every character of `t` in `from..to` is white space.
fn all_white_space(t: &Vec<char>, from: usize, to: usize) -> (r: bool)
    requires
        from <= to <= t@.len(),
    ensures
        r == forall|k: int| from <= k < to ==> is_white_space(#[trigger] t@[k]),
{
    let mut k: usize = from;
    while k < to
        invariant
            from <= k <= to,
            to <= t@.len(),
            forall|j: int| from <= j < k ==> is_white_space(#[trigger] t@[j]),
        decreases to - k,
    {
        if !is_whitespace(t[k]) {
            assert(!is_white_space(t@[k as int]));
            return false;
        }
        k = k + 1;
    }
    true
}

/// Reads a time of day as a user types it: `HH:MM` or `HH:MM:SS`, with an
/// optional AM or PM in any case, and gives the seconds since midnight.
pub fn parse_clock_time(value: &str) -> (r: Result<u32, SiganError>)
    ensures
        match r {
            Ok(secs) => clock_seconds(value@) == Ok::<int, SiganError>(secs as int),
            Err(e) => clock_seconds(value@) == Err::<int, SiganError>(e),
        },
{
    let t = trimmed_chars(value);
    let n = t.len();
    let hour_digits: usize = if n >= 2 && is_ascii_digit(t[0]) && t[1] == ':' {
        1
    } else if n >= 3 && is_ascii_digit(t[0]) && is_ascii_digit(t[1]) && t[2] == ':' {
        2
    } else {
        0
    };
    let p = hour_digits + 1;
    let q = p + 2;
    if hour_digits == 0 || n < q || !is_ascii_digit(t[p]) || !is_ascii_digit(t[p + 1]) {
        return Err(SiganError::InvalidTimeFormat);
    }
    let hours: u32 = if hour_digits == 1 {
        digit(t[0])
    } else {
        10 * digit(t[0]) + digit(t[1])
    };
    let minutes: u32 = 10 * digit(t[p]) + digit(t[p + 1]);
    let has_seconds = n >= q + 3 && t[q] == ':' && is_ascii_digit(t[q + 1]) && is_ascii_digit(
        t[q + 2],
    );
    let seconds: u32 = if has_seconds {
        10 * digit(t[q + 1]) + digit(t[q + 2])
    } else {
        0
    };
    let r: usize = if has_seconds {
        q + 3
    } else {
        q
    };
    let mut meridiem = Meridiem::Unmarked;
    if r != n {
        if n - r < 2 {
            return Err(SiganError::InvalidTimeFormat);
        }
        let a = t[n - 2];
        let b = t[n - 1];
        if (b == 'm' || b == 'M') && (a == 'a' || a == 'A') {
            meridiem = Meridiem::Am;
        } else if (b == 'm' || b == 'M') && (a == 'p' || a == 'P') {
            meridiem = Meridiem::Pm;
        } else {
            return Err(SiganError::InvalidTimeFormat);
        }
        if !all_white_space(&t, r, n - 2) {
            return Err(SiganError::InvalidTimeFormat);
        }
    }
    let is_none = match meridiem {
        Meridiem::Unmarked => true,
        _ => false,
    };
    if !is_none && hours > 12 {
        return Err(SiganError::HoursExceed12);
    }
    let hours: u32 = match meridiem {
        Meridiem::Pm => if hours < 12 {
            hours + 12
        } else {
            hours
        },
        Meridiem::Am => if hours == 12 {
            0
        } else {
            hours
        },
        Meridiem::Unmarked => hours,
    };
    if hours > 23 {
        return Err(SiganError::HoursExceed23);
    }
    if minutes > 59 {
        return Err(SiganError::MinutesExceed59);
    }
    if seconds > 59 {
        return Err(SiganError::SecondsExceed59);
    }
    Ok(hours * 3600 + minutes * 60 + seconds)
}

/// The time a typed time of day stands for on the date `today` (days since
/// 1970-01-01), in the local zone: that date at that time, with no
/// fraction of a second. Refused as `clock_seconds` says, or when that
/// local time does not occur exactly once on that date.
pub fn parse_user_time_on(value: &str, today: i64) -> (r: Result<LocalDateTime, SiganError>)
    requires
        -MAX_DAYS <= today <= MAX_DAYS,
    ensures
        match r {
            Ok(t) => clock_seconds(value@) == Ok::<int, SiganError>(t.seconds_of_day())
                && t.nanosecond() == 0 && t.local_secs() == today * SECS_PER_DAY
                + t.seconds_of_day() && t.date() == today,
            Err(e) => clock_seconds(value@) == Err::<int, SiganError>(e) || (clock_seconds(
                value@,
            ) is Ok && e == SiganError::InvalidLocalTime),
        },
{
    let secs = parse_clock_time(value)?;
    let wall: i64 = today * SECS_PER_DAY + secs as i64;
    match from_local_wall(wall, 0) {
        Some(t) => {
            assert(t.seconds_of_day() == secs && t.date() == today) by {
                vstd::arithmetic::div_mod::lemma_fundamental_div_mod_converse(
                    wall as int,
                    SECS_PER_DAY as int,
                    today as int,
                    secs as int,
                );
            }
            Ok(t)
        },
        None => Err(SiganError::InvalidLocalTime),
    }
}

/// The time a typed time of day stands for today, in the local zone, as
/// `parse_user_time_on` says for the date the clock gives.
pub fn parse_user_time(value: &str) -> (r: Result<LocalDateTime, SiganError>)
    ensures
        match r {
            Ok(t) => clock_seconds(value@) == Ok::<int, SiganError>(t.seconds_of_day())
                && t.nanosecond() == 0,
            Err(e) => clock_seconds(value@) == Err::<int, SiganError>(e) || (clock_seconds(
                value@,
            ) is Ok && e == SiganError::InvalidLocalTime),
        },
{
    let today = now().local_date();
    parse_user_time_on(value, today)
}

/// The stop time chosen among the typed one and a candidate on the start's
/// date: when the start lies on an earlier date than the typed stop, and
/// the candidate exists and lies after the start, the candidate; else the
/// typed stop time.
pub open spec fn chosen_stop(
    start: LocalDateTime,
    stop: LocalDateTime,
    candidate: Option<LocalDateTime>,
) -> LocalDateTime {
    if start.date() < stop.date() && candidate is Some && start.before(candidate.unwrap()) {
        candidate.unwrap()
    } else {
        stop
    }
}

/// Chooses the stop time as `chosen_stop` says.
pub fn choose_stop_time(
    start: LocalDateTime,
    stop: LocalDateTime,
    candidate: Option<LocalDateTime>,
) -> (r: LocalDateTime)
    ensures
        r == chosen_stop(start, stop, candidate),
{
    if start.local_date() < stop.local_date() {
        if let Some(c) = candidate {
            if start.is_before(&c) {
                return c;
            }
        }
    }
    stop
}

/// A typed stop time read as today may belong to the day the entry
/// started: when the start lies on an earlier date, the same time of day
/// on the start's date is taken if it exists in the zone and lies after
/// the start. Otherwise the stop time stays as it is.
pub fn adjust_stop_time(start: LocalDateTime, stop: LocalDateTime) -> (r: LocalDateTime)
    ensures
        !(start.date() < stop.date()) ==> r == stop,
        r == stop || {
            &&& start.date() < stop.date()
            &&& r.local_secs() == start.date() * SECS_PER_DAY + stop.seconds_of_day()
            &&& r.nanosecond() == stop.nanosecond()
            &&& start.before(r)
        },
{
    if start.local_date() < stop.local_date() {
        let wall: i64 = start.local_date() * SECS_PER_DAY + stop.local_seconds_of_day();
        let candidate = from_local_wall(wall, stop.subsec_nanos());
        choose_stop_time(start, stop, candidate)
    } else {
        stop
    }
}

} // verus!
