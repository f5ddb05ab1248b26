use vstd::prelude::*;

use crate::error::SiganError;
use crate::string_set::StringSet;
use crate::time::{LocalDateTime, MAX_ABS_SECS, SECS_PER_DAY};

verus! {

/// `true` when `id` has the form of a fresh entry id: 32 lowercase
/// hexadecimal digits.
pub open spec fn is_fresh_id(id: Seq<char>) -> bool {
    &&& id.len() == 32
    &&& forall|i: int|
        0 <= i < id.len() ==> ('0' <= #[trigger] id[i] <= '9' || 'a' <= id[i] <= 'f')
}

/// A new random id: the simple (hyphen-free, lowercase) text of a
/// version 4 UUID.
///
/// Trusted: calls `uuid::Uuid::new_v4` and formats it with `simple()`. The
/// contract claims only the form of the text, which `uuid`'s `Simple`
/// formatter writes as 32 lowercase hex digits; the value is random and
/// nothing else is said of it.
#[verifier::external_body]
fn new_id() -> (id: String)
    ensures
        is_fresh_id(id@),
{
    uuid::Uuid::new_v4().simple().to_string()
}

/// What an entry holds, as mathematical values.
pub struct EntryView {
    pub id: Seq<char>,
    pub start_time: LocalDateTime,
    pub end_time: Option<LocalDateTime>,
    pub project: Seq<char>,
    pub tags: Seq<Seq<char>>,
    pub comment: Seq<char>,
}

/// One tracked span of work.
#[derive(Debug, PartialEq, Eq)]
pub struct TimeEntry {
    pub id: String,
    pub start_time: LocalDateTime,
    pub end_time: Option<LocalDateTime>,
    pub project: String,
    pub tags: StringSet,
    pub comment: String,
}

impl View for TimeEntry {
    type V = EntryView;

    open spec fn view(&self) -> EntryView {
        EntryView {
            id: self.id@,
            start_time: self.start_time,
            end_time: self.end_time,
            project: self.project@,
            tags: self.tags.elements(),
            comment: self.comment@,
        }
    }
}

impl Clone for TimeEntry {
    fn clone(&self) -> (r: TimeEntry)
        ensures
            r@ == self@,
    {
        TimeEntry {
            id: self.id.clone(),
            start_time: self.start_time,
            end_time: self.end_time,
            project: self.project.clone(),
            tags: self.tags.clone(),
            comment: self.comment.clone(),
        }
    }
}

/// The entry after a successful stop at `end`.
pub open spec fn stopped(e: EntryView, end: LocalDateTime) -> EntryView {
    EntryView { end_time: Some(end), ..e }
}

/// Whether stopping `e` at `end` is refused, and why.
pub open spec fn stop_refusal(e: EntryView, end: LocalDateTime) -> Option<SiganError> {
    if e.end_time is Some {
        Some(SiganError::AlreadyStopped)
    } else if end.before(e.start_time) {
        Some(SiganError::EndBeforeStart)
    } else {
        None
    }
}

impl TimeEntry {
    /// A new running entry with a fresh id.
    pub fn new(project: String, start_time: LocalDateTime, comment: String, tags: StringSet) -> (r:
        TimeEntry)
        ensures
            is_fresh_id(r@.id),
            r@.start_time == start_time,
            r@.end_time is None,
            r@.project == project@,
            r@.tags == tags.elements(),
            r@.comment == comment@,
    {
        TimeEntry { id: new_id(), start_time, end_time: None, project, tags, comment }
    }

    /// Ends a running entry at `end_time`. Refused when the entry has ended
    /// already, or when `end_time` lies before its start; the entry is then
    /// unchanged.
    pub fn stop(&mut self, end_time: LocalDateTime) -> (r: Result<(), SiganError>)
        ensures
            r matches Err(e) ==> stop_refusal(old(self)@, end_time) == Some(e) && final(self)@
                == old(self)@,
            r is Ok ==> stop_refusal(old(self)@, end_time) is None && final(self)@ == stopped(
                old(self)@,
                end_time,
            ),
    {
        if self.end_time.is_some() {
            return Err(SiganError::AlreadyStopped);
        }
        if end_time.is_before(&self.start_time) {
            return Err(SiganError::EndBeforeStart);
        }
        self.end_time = Some(end_time);
        Ok(())
    }
}

/// The calendar periods that `list` accepts.
#[derive(Debug, Clone, Copy, PartialEq, Eq, Structural)]
pub enum TimePeriod {
    Today,
    Yesterday,
    Week,
    Month,
    All,
}

/// The largest distance of a date from 1970-01-01, in days, that a time
/// may have.
pub const MAX_DAYS: i64 = 104_166_670;

/// The day of the week, counted from Monday as 0. Day 0, 1970-01-01, was a
/// Thursday.
pub open spec fn weekday_from_monday(days: int) -> int {
    (days + 3) % 7
}

/// The day of the week, counted from Monday as 0.
pub fn days_from_monday(days: i64) -> (r: i64)
    requires
        -MAX_DAYS <= days <= MAX_DAYS,
    ensures
        r == weekday_from_monday(days as int),
        0 <= r < 7,
{
    (days + 3).checked_rem_euclid(7).unwrap()
}

/// What `chrono` gives for the first day of the month of the date `days`
/// (days since 1970-01-01).
pub uninterp spec fn first_day_of_month(days: i64) -> Option<i64>;

/// The first day of the month that holds the date `days`.
///
/// Trusted: calls `chrono::Datelike::with_day(date, 1)` on the
/// `chrono::NaiveDate` for `days`. The contract names the result only.
#[verifier::external_body]
fn month_first_day(days: i64) -> (r: Option<i64>)
    requires
        -MAX_DAYS <= days <= MAX_DAYS,
    ensures
        r == first_day_of_month(days),
{
    let date = chrono::NaiveDate::from_epoch_days(days as i32)?;
    let first = chrono::Datelike::with_day(&date, 1)?;
    Some(first.to_epoch_days() as i64)
}

/// Which entries a listing shows.
#[derive(Debug)]
pub struct EntryFilter {
    pub id_prefix: Option<String>,
    pub projects: StringSet,
    pub tags: StringSet,
    pub start_date: Option<i64>,
    pub end_date: Option<i64>,
    pub time_period: Option<TimePeriod>,
}

/// The date range a period sets, given today: the new start and end date.
pub open spec fn period_dates(
    period: Option<TimePeriod>,
    today: int,
    start: Option<i64>,
    end: Option<i64>,
) -> (Option<int>, Option<int>) {
    let s = match start {
        Some(d) => Some(d as int),
        None => None,
    };
    let e = match end {
        Some(d) => Some(d as int),
        None => None,
    };
    match period {
        Some(TimePeriod::Today) => (Some(today), e),
        Some(TimePeriod::Yesterday) => (Some(today - 1), Some(today - 1)),
        Some(TimePeriod::Week) => (Some(today - weekday_from_monday(today)), e),
        Some(TimePeriod::Month) => (
            match first_day_of_month(today as i64) {
                Some(d) => Some(d as int),
                None => None,
            },
            e,
        ),
        _ => (s, e),
    }
}

/// The date as a mathematical value.
pub open spec fn opt_int(d: Option<i64>) -> Option<int> {
    match d {
        Some(x) => Some(x as int),
        None => None,
    }
}

impl EntryFilter {
    /// The filter that lets every entry through.
    pub fn new() -> (r: EntryFilter)
        ensures
            r.id_prefix is None,
            r.projects@ == Set::<Seq<char>>::empty(),
            r.tags@ == Set::<Seq<char>>::empty(),
            r.start_date is None,
            r.end_date is None,
            r.time_period is None,
    {
        EntryFilter {
            id_prefix: None,
            projects: StringSet::new(),
            tags: StringSet::new(),
            start_date: None,
            end_date: None,
            time_period: None,
        }
    }

    /// Turns the time period into a date range, counted from `today` (days
    /// since 1970-01-01): today; yesterday only; the week from Monday; the
    /// month from its first day. `All` and no period leave the dates alone.
    pub fn apply_time_period(&mut self, today: i64)
        requires
            -MAX_DAYS <= today <= MAX_DAYS,
        ensures
            (opt_int(final(self).start_date), opt_int(final(self).end_date)) == period_dates(
                old(self).time_period,
                today as int,
                old(self).start_date,
                old(self).end_date,
            ),
            final(self).id_prefix == old(self).id_prefix,
            final(self).projects@ == old(self).projects@,
            final(self).tags@ == old(self).tags@,
            final(self).time_period == old(self).time_period,
    {
        match self.time_period {
            Some(TimePeriod::Today) => {
                self.start_date = Some(today);
            },
            Some(TimePeriod::Yesterday) => {
                let yesterday = today - 1;
                self.start_date = Some(yesterday);
                self.end_date = Some(yesterday);
            },
            Some(TimePeriod::Week) => {
                self.start_date = Some(today - days_from_monday(today));
            },
            Some(TimePeriod::Month) => {
                self.start_date = month_first_day(today);
            },
            _ => {},
        }
    }
}

} // verus!
