//! The tracking service: starting, stopping, listing, deleting and editing
//! entries in a store.

use vstd::prelude::*;

use crate::datetime::adjust_stop_time;
use crate::error::SiganError;
use crate::models::{
    EntryFilter, EntryView, MAX_DAYS, TimeEntry, TimePeriod, is_fresh_id, opt_int, period_dates,
    stop_refusal, stopped,
};
use crate::storage::{
    FilterView, TimeEntryRepository, deleted, filter_view, filtered, first_active, saved,
};
use crate::string_set::StringSet;
use crate::text::is_prefix;
use crate::time::{LocalDateTime, now};
use vstd::string::StringExecFns;

verus! {

/// Something that lets a user change an entry, such as an editor.
pub trait EntryEditor {
    /// The entry as the user changed it.
    fn edit_entry(&self, entry: &TimeEntry) -> Result<TimeEntry, SiganError>;
}

/// The entries whose id starts with `prefix`, in order.
pub open spec fn with_id_prefix(s: Seq<EntryView>, prefix: Seq<char>) -> Seq<EntryView> {
    filtered(s, id_prefix_filter(prefix))
}

/// An entry matched by an id prefix is one of the entries, so deleting by
/// its id finds an entry.
pub proof fn lemma_match_has_id(s: Seq<EntryView>, prefix: Seq<char>)
    ensures
        forall|k: int| 0 <= k < with_id_prefix(s, prefix).len() ==> crate::storage::has_id(s, #[trigger] with_id_prefix(s, prefix)[k].id),
{
    let f = id_prefix_filter(prefix);
    assert forall|k: int| 0 <= k < with_id_prefix(s, prefix).len() implies crate::storage::has_id(s, #[trigger] with_id_prefix(s, prefix)[k].id) by {
        let x = with_id_prefix(s, prefix)[k];
        let pred = |e: EntryView| crate::storage::matches_filter_spec(e, f);
        assert(s.filter(pred).contains(x));
        s.lemma_filter_contains_rev(pred, x);
        let i = s.index_of(x);
        assert(s[i].id == x.id);
    }
}

/// The filter that asks only for an id prefix.
pub open spec fn id_prefix_filter(prefix: Seq<char>) -> FilterView {
    FilterView {
        id_prefix: Some(prefix),
        projects: Set::empty(),
        tags: Set::empty(),
        start_date: None,
        end_date: None,
    }
}

/// The entries after the running entry, if any, is stopped at `at`.
pub open spec fn with_active_stopped(s: Seq<EntryView>, at: LocalDateTime) -> Seq<EntryView> {
    match first_active(s) {
        Some(a) => saved(s, stopped(a, at)),
        None => s,
    }
}

/// `e` with the comment replaced by `comment` when that is given and not
/// empty.
pub open spec fn with_comment(e: EntryView, comment: Option<Seq<char>>) -> EntryView {
    match comment {
        Some(c) => if c.len() > 0 {
            EntryView { comment: c, ..e }
        } else {
            e
        },
        None => e,
    }
}

/// The filter a listing applies, given today: the time period turns into
/// dates; with no period and no dates, the listing runs from today, or
/// from the start date of the running entry when that is earlier, to
/// today.
pub open spec fn listing_filter(
    f: FilterView,
    period: Option<TimePeriod>,
    start: Option<i64>,
    end: Option<i64>,
    today: int,
    active: Option<EntryView>,
) -> FilterView {
    let (s, e) = period_dates(period, today, start, end);
    if period is None && s is None && e is None {
        let from = match active {
            Some(a) => if a.start_time.date() < today {
                a.start_time.date()
            } else {
                today
            },
            None => today,
        };
        FilterView { start_date: Some(from), end_date: Some(today), ..f }
    } else {
        FilterView { start_date: s, end_date: e, ..f }
    }
}

/// The time given, or the clock's time when none is.
pub open spec fn chosen_time(given: Option<LocalDateTime>, clock: LocalDateTime) -> LocalDateTime {
    match given {
        Some(t) => t,
        None => clock,
    }
}

/// The tracking service over a store of entries.
pub struct TimeTrackingService<R> {
    repository: R,
}

impl<R: TimeEntryRepository> TimeTrackingService<R> {
    /// The store the service works on.
    pub closed spec fn repo(self) -> R {
        self.repository
    }

    /// A service over `repository`.
    pub fn new(repository: R) -> (r: Self)
        ensures
            r.repo() == repository,
    {
        TimeTrackingService { repository }
    }

    /// The store, given back.
    pub fn into_repository(self) -> (r: R)
        ensures
            r == self.repo(),
    {
        self.repository
    }

    /// Starts a new entry at `start_time` (now, when not given). A running
    /// entry is stopped at that time first; that is refused when it
    /// started later, and then nothing changes.
    pub fn start_tracking(
        &mut self,
        project: String,
        start_time: Option<LocalDateTime>,
        comment: String,
        tags: StringSet,
    ) -> (r: Result<TimeEntry, SiganError>)
        ensures
            final(self).repo().reliable() == old(self).repo().reliable(),
            old(self).repo().reliable() && (start_time matches Some(t) ==> !(first_active(
                old(self).repo().stored(),
            ) matches Some(a) && t.before(a.start_time))) && (start_time is None ==> first_active(
                old(self).repo().stored(),
            ) is None) ==> r is Ok,
            r matches Ok(e) ==> {
                &&& is_fresh_id(e@.id)
                &&& e@.project == project@
                &&& e@.comment == comment@
                &&& e@.tags == tags.elements()
                &&& e@.end_time is None
                &&& (start_time matches Some(t) ==> e@.start_time == t)
                &&& (first_active(old(self).repo().stored()) matches Some(a) ==> !e@.start_time.before(
                    a.start_time,
                ))
                &&& final(self).repo().stored() == saved(
                    with_active_stopped(old(self).repo().stored(), e@.start_time),
                    e@,
                )
            },
            r matches Err(e) ==> e is Storage || {
                &&& e == SiganError::EndBeforeStart
                &&& final(self).repo().stored() == old(self).repo().stored()
                &&& first_active(old(self).repo().stored()) is Some
                &&& (start_time matches Some(t) ==> t.before(
                    first_active(old(self).repo().stored()).unwrap().start_time,
                ))
            },
    {
        let clock = now();
        self.start_tracking_at(project, start_time, comment, tags, clock)
    }

    /// Starts a new entry at `start_time`, or at `clock` (the time it is
    /// now) when none is given. A running entry is stopped at that same
    /// time first; that is refused when it started later, and then nothing
    /// changes.
    pub fn start_tracking_at(
        &mut self,
        project: String,
        start_time: Option<LocalDateTime>,
        comment: String,
        tags: StringSet,
        clock: LocalDateTime,
    ) -> (r: Result<TimeEntry, SiganError>)
        ensures
            final(self).repo().reliable() == old(self).repo().reliable(),
            old(self).repo().reliable() && !(first_active(old(self).repo().stored()) matches Some(a)
                && chosen_time(start_time, clock).before(a.start_time)) ==> r is Ok,
            r matches Ok(e) ==> {
                &&& is_fresh_id(e@.id)
                &&& e@.project == project@
                &&& e@.comment == comment@
                &&& e@.tags == tags.elements()
                &&& e@.end_time is None
                &&& e@.start_time == chosen_time(start_time, clock)
                &&& (first_active(old(self).repo().stored()) matches Some(a) ==> !e@.start_time.before(
                    a.start_time,
                ))
                &&& final(self).repo().stored() == saved(
                    with_active_stopped(old(self).repo().stored(), e@.start_time),
                    e@,
                )
            },
            r matches Err(e) ==> e is Storage || {
                &&& e == SiganError::EndBeforeStart
                &&& final(self).repo().stored() == old(self).repo().stored()
                &&& first_active(old(self).repo().stored()) matches Some(a)
                &&& chosen_time(start_time, clock).before(a.start_time)
            },
    {
        let start = match start_time {
            Some(t) => t,
            None => clock,
        };
        let ghost s = self.repository.stored();
        let active = self.repository.get_active_entry()?;
        proof {
            crate::storage::lemma_first_active(s);
        }
        if let Some(mut active) = active {
            let ghost a = active@;
            active.stop(start)?;
            assert(active@ == stopped(a, start));
            self.repository.save(active)?;
        }
        let entry = TimeEntry::new(project, start, comment, tags);
        self.repository.save(entry.clone())?;
        Ok(entry)
    }

    /// Stops the running entry, if any, at `stop_time` (now, when not
    /// given; a time on a later date than the start may be moved to the
    /// start's date, as `adjust_stop_time` says), with the comment
    /// replaced when a non-empty one is given. `None` when nothing runs.
    pub fn stop_tracking(
        &mut self,
        stop_time: Option<LocalDateTime>,
        comment: Option<String>,
    ) -> (r: Result<Option<TimeEntry>, SiganError>)
        ensures
            final(self).repo().reliable() == old(self).repo().reliable(),
            old(self).repo().reliable() && (stop_time matches Some(t) ==> !(first_active(
                old(self).repo().stored(),
            ) matches Some(a) && t.before(a.start_time))) && (stop_time is None ==> first_active(
                old(self).repo().stored(),
            ) is None) ==> r is Ok,
            r matches Ok(None) ==> first_active(old(self).repo().stored()) is None
                && final(self).repo().stored() == old(self).repo().stored(),
            r matches Ok(Some(e)) ==> {
                let a = first_active(old(self).repo().stored()).unwrap();
                let c = match comment {
                    Some(c) => Some(c@),
                    None => None,
                };
                &&& first_active(old(self).repo().stored()) is Some
                &&& e@.end_time is Some
                &&& e@ == stopped(with_comment(a, c), e@.end_time.unwrap())
                &&& !e@.end_time.unwrap().before(a.start_time)
                &&& (stop_time matches Some(t) ==> (e@.end_time == Some(t) || {
                    let end = e@.end_time.unwrap();
                    &&& a.start_time.date() < t.date()
                    &&& end.local_secs() == a.start_time.date() * 86400 + t.seconds_of_day()
                    &&& end.nanosecond() == t.nanosecond()
                }))
                &&& final(self).repo().stored() == saved(old(self).repo().stored(), e@)
            },
            r matches Err(e) ==> e is Storage || {
                &&& e == SiganError::EndBeforeStart
                &&& final(self).repo().stored() == old(self).repo().stored()
            },
    {
        let clock = now();
        self.stop_tracking_at(stop_time, comment, clock)
    }

    /// Stops the running entry, if any, at `stop_time`, or at `clock` (the
    /// time it is now) when none is given; a given time on a later date
    /// than the start may be moved to the start's date, as
    /// `adjust_stop_time` says. The comment is replaced when a non-empty
    /// one is given. `None` when nothing runs.
    pub fn stop_tracking_at(
        &mut self,
        stop_time: Option<LocalDateTime>,
        comment: Option<String>,
        clock: LocalDateTime,
    ) -> (r: Result<Option<TimeEntry>, SiganError>)
        ensures
            final(self).repo().reliable() == old(self).repo().reliable(),
            old(self).repo().reliable() && (stop_time matches Some(t) ==> !(first_active(
                old(self).repo().stored(),
            ) matches Some(a) && t.before(a.start_time))) && (stop_time is None ==> !(first_active(
                old(self).repo().stored(),
            ) matches Some(a) && clock.before(a.start_time))) ==> r is Ok,
            r matches Ok(None) ==> first_active(old(self).repo().stored()) is None
                && final(self).repo().stored() == old(self).repo().stored(),
            r matches Ok(Some(e)) ==> {
                let a = first_active(old(self).repo().stored()).unwrap();
                let c = match comment {
                    Some(c) => Some(c@),
                    None => None,
                };
                &&& first_active(old(self).repo().stored()) is Some
                &&& e@.end_time is Some
                &&& e@ == stopped(with_comment(a, c), e@.end_time.unwrap())
                &&& !e@.end_time.unwrap().before(a.start_time)
                &&& (stop_time is None ==> e@.end_time == Some(clock))
                &&& (stop_time matches Some(t) ==> (e@.end_time == Some(t) || {
                    let end = e@.end_time.unwrap();
                    &&& a.start_time.date() < t.date()
                    &&& end.local_secs() == a.start_time.date() * 86400 + t.seconds_of_day()
                    &&& end.nanosecond() == t.nanosecond()
                }))
                &&& final(self).repo().stored() == saved(old(self).repo().stored(), e@)
            },
            r matches Err(e) ==> e is Storage || {
                &&& e == SiganError::EndBeforeStart
                &&& final(self).repo().stored() == old(self).repo().stored()
                &&& first_active(old(self).repo().stored()) matches Some(a)
                &&& (stop_time is None ==> clock.before(a.start_time))
            },
    {
        let active = self.repository.get_active_entry()?;
        proof {
            crate::storage::lemma_first_active(old(self).repo().stored());
        }
        let mut active = match active {
            Some(a) => a,
            None => return Ok(None),
        };
        let ghost a = active@;
        if let Some(c) = comment {
            if !c.as_str().is_empty() {
                active.comment = c;
            }
        }
        let stop = match stop_time {
            Some(t) => adjust_stop_time(active.start_time, t),
            None => clock,
        };
        proof {
            if let Some(t) = stop_time {
                if !t.before(a.start_time) {
                    assert(!stop.before(a.start_time));
                }
            }
        }
        active.stop(stop)?;
        self.repository.save(active.clone())?;
        Ok(Some(active))
    }

    /// The running entry, if any.
    pub fn status(&mut self) -> (r: Result<Option<TimeEntry>, SiganError>)
        ensures
            final(self).repo().stored() == old(self).repo().stored(),
            final(self).repo().reliable() == old(self).repo().reliable(),
            old(self).repo().reliable() ==> r is Ok,
            r matches Ok(a) ==> match a {
                Some(e) => first_active(old(self).repo().stored()) == Some(e@),
                None => first_active(old(self).repo().stored()) is None,
            },
    {
        self.repository.get_active_entry()
    }

    /// The entries that `filter` lets through when today is `today` (days
    /// since 1970-01-01), as `listing_filter` sets the dates.
    pub fn list_as_of(&mut self, filter: EntryFilter, today: i64) -> (r: Result<
        Vec<TimeEntry>,
        SiganError,
    >)
        requires
            -MAX_DAYS <= today <= MAX_DAYS,
        ensures
            final(self).repo().stored() == old(self).repo().stored(),
            final(self).repo().reliable() == old(self).repo().reliable(),
            old(self).repo().reliable() ==> r is Ok,
            r matches Ok(v) ==> crate::storage::order::views(v@) == filtered(
                old(self).repo().stored(),
                listing_filter(
                    filter_view(&filter),
                    filter.time_period,
                    filter.start_date,
                    filter.end_date,
                    today as int,
                    first_active(old(self).repo().stored()),
                ),
            ),
    {
        let ghost f0 = filter_view(&filter);
        let mut filter = filter;
        filter.apply_time_period(today);
        if filter.time_period.is_none() && filter.start_date.is_none() && filter.end_date.is_none() {
            let active = self.repository.get_active_entry()?;
            let from = match active {
                Some(a) => {
                    let d = a.start_time.local_date();
                    if d < today {
                        d
                    } else {
                        today
                    }
                },
                None => today,
            };
            filter.start_date = Some(from);
            filter.end_date = Some(today);
        }
        let r = self.repository.filter(&filter);
        proof {
            assert(filter_view(&filter).projects == f0.projects);
        }
        r
    }

    /// The entries that `filter` lets through, counted from today's date
    /// in the local zone, as `list_as_of` says.
    pub fn list(&mut self, filter: EntryFilter) -> (r: Result<Vec<TimeEntry>, SiganError>)
        ensures
            final(self).repo().stored() == old(self).repo().stored(),
            final(self).repo().reliable() == old(self).repo().reliable(),
            old(self).repo().reliable() ==> r is Ok,
            r matches Ok(v) ==> exists|today: int|
                crate::storage::order::views(v@) == filtered(
                    old(self).repo().stored(),
                    #[trigger] listing_filter(
                        filter_view(&filter),
                        filter.time_period,
                        filter.start_date,
                        filter.end_date,
                        today,
                        first_active(old(self).repo().stored()),
                    ),
                ),
    {
        let today = now().local_date();
        self.list_as_of(filter, today)
    }

    /// Deletes the one entry whose id starts with `id_prefix`, and gives it
    /// back. Refused when no entry or more than one has such an id.
    pub fn delete(&mut self, id_prefix: &str) -> (r: Result<TimeEntry, SiganError>)
        ensures
            final(self).repo().reliable() == old(self).repo().reliable(),
            old(self).repo().reliable() ==> !(r matches Err(SiganError::Storage(_))),
            old(self).repo().reliable() && with_id_prefix(old(self).repo().stored(), id_prefix@).len()
                == 1 ==> r is Ok,
            r matches Ok(e) ==> {
                let m = with_id_prefix(old(self).repo().stored(), id_prefix@);
                &&& m.len() == 1
                &&& deleted(old(self).repo().stored(), m[0].id).1 == Some(e@)
                &&& final(self).repo().stored() == deleted(old(self).repo().stored(), m[0].id).0
            },
            r matches Err(e) ==> e is Storage || {
                &&& final(self).repo().stored() == old(self).repo().stored()
                &&& {
                    ||| (e matches SiganError::NotFound(p) && p@ == id_prefix@ && with_id_prefix(
                        old(self).repo().stored(),
                        id_prefix@,
                    ).len() == 0)
                    ||| (e matches SiganError::MultipleMatches(p) && p@ == id_prefix@
                        && with_id_prefix(old(self).repo().stored(), id_prefix@).len() > 1)
                }
            },
    {
        let ghost s = self.repository.stored();
        let entry = self.entry_for_edit(id_prefix)?;
        proof {
            lemma_match_has_id(s, id_prefix@);
        }
        let removed = self.repository.delete_entry(entry.id.as_str())?;
        match removed {
            Some(e) => Ok(e),
            None => Err(SiganError::NotFound(String::from_str(id_prefix))),
        }
    }

    /// Lets `editor` change the one entry whose id starts with `id_prefix`,
    /// and stores the changed entry as `save` does. Refused when no entry or
    /// more than one has such an id, or with the editor's error when it
    /// gives back no entry; nothing changes then. What the editor gives back
    /// is its own affair: a program that runs the editor itself calls
    /// `entry_for_edit` and `store_edited`, whose contracts are exact.
    pub fn edit<E: EntryEditor>(&mut self, id_prefix: &str, editor: &E) -> (r: Result<
        TimeEntry,
        SiganError,
    >)
        ensures
            final(self).repo().reliable() == old(self).repo().reliable(),
            old(self).repo().reliable() && with_id_prefix(old(self).repo().stored(), id_prefix@).len()
                == 0 ==> (r matches Err(SiganError::NotFound(p)) && p@ == id_prefix@),
            old(self).repo().reliable() && with_id_prefix(old(self).repo().stored(), id_prefix@).len()
                > 1 ==> (r matches Err(SiganError::MultipleMatches(p)) && p@ == id_prefix@),
            r matches Ok(u) ==> {
                &&& with_id_prefix(old(self).repo().stored(), id_prefix@).len() == 1
                &&& final(self).repo().stored() == saved(old(self).repo().stored(), u@)
            },
            r matches Err(e) ==> e is Storage || {
                &&& final(self).repo().stored() == old(self).repo().stored()
                &&& {
                    ||| (e matches SiganError::NotFound(p) && p@ == id_prefix@ && with_id_prefix(
                        old(self).repo().stored(),
                        id_prefix@,
                    ).len() == 0)
                    ||| (e matches SiganError::MultipleMatches(p) && p@ == id_prefix@
                        && with_id_prefix(old(self).repo().stored(), id_prefix@).len() > 1)
                    ||| with_id_prefix(old(self).repo().stored(), id_prefix@).len() == 1
                }
            },
    {
        let entry = self.entry_for_edit(id_prefix)?;
        let updated = match editor.edit_entry(&entry) {
            Ok(u) => u,
            Err(e) => return Err(e),
        };
        self.store_edited(id_prefix, updated)
    }

    /// Stores an edited entry as `save` does, in place of the one entry
    /// whose id starts with `id_prefix`, and gives it back. Refused, with
    /// nothing changed, when no entry or more than one has such an id.
    pub fn store_edited(&mut self, id_prefix: &str, updated: TimeEntry) -> (r: Result<
        TimeEntry,
        SiganError,
    >)
        ensures
            final(self).repo().reliable() == old(self).repo().reliable(),
            old(self).repo().reliable() ==> !(r matches Err(SiganError::Storage(_))),
            old(self).repo().reliable() && with_id_prefix(old(self).repo().stored(), id_prefix@).len()
                == 1 ==> r is Ok,
            old(self).repo().reliable() && with_id_prefix(old(self).repo().stored(), id_prefix@).len()
                == 0 ==> (r matches Err(SiganError::NotFound(p)) && p@ == id_prefix@),
            old(self).repo().reliable() && with_id_prefix(old(self).repo().stored(), id_prefix@).len()
                > 1 ==> (r matches Err(SiganError::MultipleMatches(p)) && p@ == id_prefix@),
            r matches Ok(u) ==> {
                &&& u@ == updated@
                &&& with_id_prefix(old(self).repo().stored(), id_prefix@).len() == 1
                &&& final(self).repo().stored() == saved(old(self).repo().stored(), updated@)
            },
            r matches Err(e) ==> e is Storage || {
                &&& final(self).repo().stored() == old(self).repo().stored()
                &&& {
                    ||| (e matches SiganError::NotFound(p) && p@ == id_prefix@ && with_id_prefix(
                        old(self).repo().stored(),
                        id_prefix@,
                    ).len() == 0)
                    ||| (e matches SiganError::MultipleMatches(p) && p@ == id_prefix@
                        && with_id_prefix(old(self).repo().stored(), id_prefix@).len() > 1)
                }
            },
    {
        // The entry in place must still be the only one with such an id.
        self.entry_for_edit(id_prefix)?;
        self.repository.save(updated.clone())?;
        Ok(updated)
    }

    /// The one entry whose id starts with `id_prefix`: the entry to hand
    /// to an editor. Refused when no entry or more than one has such an id.
    pub fn entry_for_edit(&mut self, id_prefix: &str) -> (r: Result<TimeEntry, SiganError>)
        ensures
            final(self).repo().stored() == old(self).repo().stored(),
            final(self).repo().reliable() == old(self).repo().reliable(),
            old(self).repo().reliable() ==> !(r matches Err(SiganError::Storage(_))),
            r matches Ok(e) ==> with_id_prefix(old(self).repo().stored(), id_prefix@) == seq![e@],
            r matches Err(e) ==> e is Storage || (e matches SiganError::NotFound(p) && p@
                == id_prefix@ && with_id_prefix(old(self).repo().stored(), id_prefix@).len() == 0)
                || (e matches SiganError::MultipleMatches(p) && p@ == id_prefix@ && with_id_prefix(
                old(self).repo().stored(),
                id_prefix@,
            ).len() > 1),
    {
        let mut filter = EntryFilter::new();
        filter.id_prefix = Some(String::from_str(id_prefix));
        assert(filter_view(&filter) == id_prefix_filter(id_prefix@));
        let matches = self.repository.filter(&filter)?;
        if matches.len() == 1 {
            Ok(matches[0].clone())
        } else if matches.len() == 0 {
            Err(SiganError::NotFound(String::from_str(id_prefix)))
        } else {
            Err(SiganError::MultipleMatches(String::from_str(id_prefix)))
        }
    }
}

} // verus!
