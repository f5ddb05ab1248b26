//! The rows of a listing: entries grouped by the date they start on, with
//! a subtotal after each date and a total at the end.

use vstd::prelude::*;

use crate::models::{EntryView, TimeEntry};
use crate::output::duration::{MAX_DELTA_NANOS, entry_duration, entry_nanos};
use crate::storage::order::views;
use crate::time::LocalDateTime;

verus! {

/// A row of a listing.
#[derive(Debug, Clone, Copy, PartialEq, Eq, Structural)]
pub enum ListRow {
    /// The date that the following entries start on (days since
    /// 1970-01-01).
    Day { date: i64 },
    /// The entry at this index of the listed entries, and how long it ran
    /// (nanoseconds).
    Entry { index: usize, nanos: i128 },
    /// How long the entries of the date above ran together.
    Subtotal { nanos: i128 },
    /// How long all entries ran together.
    Total { nanos: i128 },
}

/// The rows of a listing, and the rows above which a line is drawn.
#[derive(Debug)]
pub struct ListLayout {
    pub rows: Vec<ListRow>,
    pub separators: Vec<usize>,
}

/// The duration of the entry at `i`.
pub open spec fn dur(s: Seq<EntryView>, now: LocalDateTime, i: int) -> int {
    entry_nanos(s[i], now)
}

/// The total duration of the entries `a..b`.
pub open spec fn sum_range(s: Seq<EntryView>, now: LocalDateTime, a: int, b: int) -> int
    decreases b - a,
{
    if b <= a {
        0
    } else {
        sum_range(s, now, a, b - 1) + dur(s, now, b - 1)
    }
}

/// A duration fits in `chrono`'s `TimeDelta`.
pub open spec fn fits_delta(x: int) -> bool {
    -MAX_DELTA_NANOS <= x <= MAX_DELTA_NANOS
}

/// Every running sum that a listing adds up fits in `chrono`'s
/// `TimeDelta`: the total of the entries `0..k`, and the sum of the
/// entries of the date of the entry at `k - 1` up to it.
pub open spec fn running_sums_fit(s: Seq<EntryView>, now: LocalDateTime) -> bool {
    forall|k: int|
        0 < k <= s.len() ==> fits_delta(#[trigger] sum_range(s, now, 0, k)) && fits_delta(
            sum_range(s, now, group_start(s, k - 1), k),
        )
}

/// The entry at `i` starts a new date: it is the first, or the one before
/// it starts on another date.
pub open spec fn starts_day(s: Seq<EntryView>, i: int) -> bool {
    i == 0 || s[i].start_time.date() != s[i - 1].start_time.date()
}

/// The first entry of the run of entries on the same date that holds `i`.
pub open spec fn group_start(s: Seq<EntryView>, i: int) -> int
    decreases i,
{
    if i > 0 && !starts_day(s, i) {
        group_start(s, i - 1)
    } else {
        i
    }
}

/// The subtotal row that closes the date whose last entry is at `i`; none
/// when its entries ran for no time in total.
pub open spec fn closing_rows(s: Seq<EntryView>, now: LocalDateTime, i: int) -> Seq<ListRow> {
    let total = sum_range(s, now, group_start(s, i), i + 1);
    if total != 0 {
        seq![ListRow::Subtotal { nanos: total as i128 }]
    } else {
        Seq::empty()
    }
}

/// The rows the entry at `i` brings: when it starts a new date, the
/// subtotal of the date before (as `closing_rows` says) and a row with the
/// date; then the entry.
pub open spec fn entry_rows(s: Seq<EntryView>, now: LocalDateTime, i: int) -> Seq<ListRow> {
    let head = if starts_day(s, i) {
        (if i > 0 {
            closing_rows(s, now, i - 1)
        } else {
            Seq::empty()
        }).push(ListRow::Day { date: s[i].start_time.date() as i64 })
    } else {
        Seq::empty()
    };
    head.push(ListRow::Entry { index: i as usize, nanos: dur(s, now, i) as i128 })
}

/// The rows of the entries `0..k`.
pub open spec fn rows_upto(s: Seq<EntryView>, now: LocalDateTime, k: int) -> Seq<ListRow>
    decreases k,
{
    if k <= 0 {
        Seq::empty()
    } else {
        rows_upto(s, now, k - 1) + entry_rows(s, now, k - 1)
    }
}

/// All rows of a listing: the rows of the entries, the subtotal of the last
/// date, and the total.
pub open spec fn list_rows(s: Seq<EntryView>, now: LocalDateTime) -> Seq<ListRow> {
    let n = s.len() as int;
    let last = if n > 0 {
        closing_rows(s, now, n - 1)
    } else {
        Seq::empty()
    };
    (rows_upto(s, now, n) + last).push(ListRow::Total { nanos: sum_range(s, now, 0, n) as i128 })
}

/// The table rows above which a line is drawn in a condensed table: the
/// row after each subtotal (the table's header is row 0, so the row after
/// the subtotal at index `k` of `rows` is row `k + 2`).
pub open spec fn lines_after_subtotals(rows: Seq<ListRow>) -> Seq<usize>
    decreases rows.len(),
{
    if rows.len() == 0 {
        Seq::empty()
    } else {
        let before = lines_after_subtotals(rows.drop_last());
        if rows.last() is Subtotal {
            before.push((rows.len() + 1) as usize)
        } else {
            before
        }
    }
}

/// The running sums up to `k` fit.
proof fn lemma_fits(s: Seq<EntryView>, now: LocalDateTime, k: int)
    requires
        running_sums_fit(s, now),
        0 <= k <= s.len(),
    ensures
        fits_delta(sum_range(s, now, 0, k)),
        k > 0 ==> fits_delta(sum_range(s, now, group_start(s, k - 1), k)),
        k > 0 ==> 0 <= group_start(s, k - 1) <= k - 1,
{
    if k > 0 {
        assert(fits_delta(sum_range(s, now, 0, k)));
        lemma_group_start_range(s, k - 1);
    }
}

/// Lays out a listing: the entries in their order, a row with the date
/// before the entries of each date, a subtotal after each date whose
/// entries ran for some time, and the total. Running entries count up to
/// `now`. In a condensed table a line is drawn after each subtotal.
pub fn list_layout(entries: &[TimeEntry], now: &LocalDateTime, condensed: bool) -> (r: ListLayout)
    requires
        running_sums_fit(views(entries@), *now),
        entries@.len() < usize::MAX / 4,
    ensures
        r.rows@ == list_rows(views(entries@), *now),
        r.separators@ == (if condensed {
            lines_after_subtotals(r.rows@)
        } else {
            Seq::empty()
        }),
{
    let ghost s = views(entries@);
    let ghost n = entries@.len() as int;
    let mut rows: Vec<ListRow> = Vec::new();
    let mut separators: Vec<usize> = Vec::new();
    let mut current_date: Option<i64> = None;
    let mut subtotal: i128 = 0;
    let mut total: i128 = 0;
    let mut i: usize = 0;
    while i < entries.len()
        invariant
            s == views(entries@),
            n == entries@.len(),
            n < usize::MAX / 4,
            i <= n,
            running_sums_fit(s, *now),
            rows@ == rows_upto(s, *now, i as int),
            separators@ == (if condensed {
                lines_after_subtotals(rows@)
            } else {
                Seq::empty()
            }),
            total == sum_range(s, *now, 0, i as int),
            i == 0 ==> current_date is None && subtotal == 0,
            i > 0 ==> (current_date matches Some(d) && d == s[i - 1].start_time.date()) && subtotal
                == sum_range(s, *now, group_start(s, i - 1), i as int),
            rows@.len() <= 3 * i,
        decreases n - i,
    {
        let entry = &entries[i];
        let entry_date = entry.start_time.local_date();
        let ghost before = rows@;
        let ghost seps_before = separators@;
        let new_day = match current_date {
            Some(d) => d != entry_date,
            None => true,
        };
        assert(s[i as int] == entry@);
        assert(new_day == starts_day(s, i as int));
        proof {
            lemma_fits(s, *now, i as int);
        }
        if new_day {
            if subtotal != 0 {
                rows.push(ListRow::Subtotal { nanos: subtotal });
                if condensed {
                    separators.push(rows.len() + 1);
                }
            }
            subtotal = 0;
            current_date = Some(entry_date);
            rows.push(ListRow::Day { date: entry_date });
        }
        let duration = entry_duration(entry, now);
        proof {
            lemma_fits(s, *now, i + 1);
            if !new_day {
                assert(group_start(s, i as int) == group_start(s, i - 1));
            } else {
                assert(group_start(s, i as int) == i);
            }
        }
        subtotal = subtotal + duration;
        total = total + duration;
        rows.push(ListRow::Entry { index: i, nanos: duration });
        proof {
            let b = entry_rows(s, *now, i as int);
            assert(rows@ =~= before + b);
            lemma_lines_step(before, b);
            reveal_with_fuel(lines_after_subtotals_from, 4);
            if condensed {
                assert(separators@ =~= seps_before + lines_after_subtotals_from(b, before.len() as int));
            }
            assert(duration == dur(s, *now, i as int));
            assert(entry_date == s[i as int].start_time.date());
            if new_day {
                assert(sum_range(s, *now, i as int, i as int) == 0);
            }
            assert(subtotal == sum_range(s, *now, group_start(s, i as int), i + 1));
        }
        i = i + 1;
    }
    proof {
        lemma_fits(s, *now, n);
    }
    let ghost before = rows@;
    let ghost seps_before = separators@;
    if subtotal != 0 {
        rows.push(ListRow::Subtotal { nanos: subtotal });
        if condensed {
            separators.push(rows.len() + 1);
        }
    }
    rows.push(ListRow::Total { nanos: total });
    proof {
        let last = if n > 0 {
            closing_rows(s, *now, n - 1)
        } else {
            Seq::<ListRow>::empty()
        };
        let b = last.push(ListRow::Total { nanos: total });
        assert(rows@ =~= before + b);
        lemma_lines_step(before, b);
        reveal_with_fuel(lines_after_subtotals_from, 3);
        if condensed {
            assert(separators@ =~= seps_before + lines_after_subtotals_from(b, before.len() as int));
        }
    }
    ListLayout { rows, separators }
}

proof fn lemma_group_start_range(s: Seq<EntryView>, i: int)
    requires
        0 <= i,
    ensures
        0 <= group_start(s, i) <= i,
    decreases i,
{
    if i > 0 && !starts_day(s, i) {
        lemma_group_start_range(s, i - 1);
    }
}

/// Lines of rows followed by more rows.
proof fn lemma_lines_step(a: Seq<ListRow>, b: Seq<ListRow>)
    ensures
        lines_after_subtotals(a + b) == lines_after_subtotals(a) + lines_after_subtotals_from(
            b,
            a.len() as int,
        ),
    decreases b.len(),
{
    if b.len() == 0 {
        assert(a + b =~= a);
    } else {
        lemma_lines_step(a, b.drop_last());
        assert((a + b).drop_last() =~= a + b.drop_last());
    }
}

/// The lines of the rows `b` when `offset` rows come before them.
pub open spec fn lines_after_subtotals_from(b: Seq<ListRow>, offset: int) -> Seq<usize>
    decreases b.len(),
{
    if b.len() == 0 {
        Seq::empty()
    } else {
        let before = lines_after_subtotals_from(b.drop_last(), offset);
        if b.last() is Subtotal {
            before.push((offset + b.len() + 1) as usize)
        } else {
            before
        }
    }
}


/// The sum of the subtotal rows of `rows`.
pub open spec fn subtotal_sum(rows: Seq<ListRow>) -> int
    decreases rows.len(),
{
    if rows.len() == 0 {
        0
    } else {
        subtotal_sum(rows.drop_last()) + match rows.last() {
            ListRow::Subtotal { nanos } => nanos as int,
            _ => 0,
        }
    }
}

proof fn lemma_subtotal_sum_concat(a: Seq<ListRow>, b: Seq<ListRow>)
    ensures
        subtotal_sum(a + b) == subtotal_sum(a) + subtotal_sum(b),
    decreases b.len(),
{
    if b.len() == 0 {
        assert(a + b =~= a);
    } else {
        assert((a + b).drop_last() =~= a + b.drop_last());
        lemma_subtotal_sum_concat(a, b.drop_last());
    }
}

proof fn lemma_sum_split(s: Seq<EntryView>, now: LocalDateTime, a: int, b: int, c: int)
    requires
        a <= b <= c,
    ensures
        sum_range(s, now, a, c) == sum_range(s, now, a, b) + sum_range(s, now, b, c),
    decreases c - b,
{
    if c > b {
        lemma_sum_split(s, now, a, b, c - 1);
    }
}

/// The subtotal rows of the entries `0..k` add up to the entries before
/// the date of the entry at `k - 1`.
proof fn lemma_subtotals_upto(s: Seq<EntryView>, now: LocalDateTime, k: int)
    requires
        0 <= k <= s.len(),
        running_sums_fit(s, now),
    ensures
        k == 0 ==> subtotal_sum(rows_upto(s, now, k)) == 0,
        k > 0 ==> subtotal_sum(rows_upto(s, now, k)) == sum_range(s, now, 0, group_start(s, k - 1)),
    decreases k,
{
    if k > 0 {
        let i = k - 1;
        lemma_subtotals_upto(s, now, i);
        lemma_group_start_range(s, i);
        let head = if starts_day(s, i) {
            (if i > 0 {
                closing_rows(s, now, i - 1)
            } else {
                Seq::empty()
            }).push(ListRow::Day { date: s[i].start_time.date() as i64 })
        } else {
            Seq::empty()
        };
        let b = entry_rows(s, now, i);
        lemma_subtotal_sum_concat(rows_upto(s, now, i), b);
        assert(b.drop_last() == head);
        if starts_day(s, i) {
            assert(group_start(s, i) == i);
            if i > 0 {
                lemma_fits(s, now, i);
                lemma_sum_split(s, now, 0, group_start(s, i - 1), i);
                lemma_closing_sum(s, now, i - 1);
                assert(head.drop_last() =~= closing_rows(s, now, i - 1));
            } else {
                assert(head.drop_last() =~= Seq::<ListRow>::empty());
            }
            assert(subtotal_sum(head) == subtotal_sum(head.drop_last()));
        } else {
            assert(group_start(s, i) == group_start(s, i - 1));
        }
        assert(subtotal_sum(b) == subtotal_sum(head));
        assert(rows_upto(s, now, k) == rows_upto(s, now, i) + b);
        assert(subtotal_sum(rows_upto(s, now, k)) == subtotal_sum(rows_upto(s, now, i)) + subtotal_sum(b));
        if !starts_day(s, i) {
            assert(subtotal_sum(head) == 0);
        } else if i > 0 {
            assert(subtotal_sum(head) == sum_range(s, now, group_start(s, i - 1), i));
            assert(sum_range(s, now, 0, group_start(s, k - 1)) == sum_range(s, now, 0, i));
        } else {
            assert(subtotal_sum(head) == 0);
            assert(sum_range(s, now, 0, 0) == 0);
        }
    }
}

/// The subtotals of a listing add up to its total, which is the last row:
/// every entry counts in exactly one date, and a date whose entries ran
/// for no time in total adds nothing.
pub proof fn law_subtotals_add_up_to_total(s: Seq<EntryView>, now: LocalDateTime)
    requires
        running_sums_fit(s, now),
    ensures
        subtotal_sum(list_rows(s, now)) == sum_range(s, now, 0, s.len() as int),
        list_rows(s, now).last() == (ListRow::Total {
            nanos: sum_range(s, now, 0, s.len() as int) as i128,
        }),
        -MAX_DELTA_NANOS <= sum_range(s, now, 0, s.len() as int) <= MAX_DELTA_NANOS,
{
    let n = s.len() as int;
    lemma_subtotals_upto(s, now, n);
    lemma_fits(s, now, n);
    let last = if n > 0 {
        closing_rows(s, now, n - 1)
    } else {
        Seq::empty()
    };
    let rows = list_rows(s, now);
    let total = ListRow::Total { nanos: sum_range(s, now, 0, n) as i128 };
    assert(rows.drop_last() == rows_upto(s, now, n) + last);
    lemma_subtotal_sum_concat(rows_upto(s, now, n), last);
    if n > 0 {
        lemma_group_start_range(s, n - 1);
        lemma_sum_split(s, now, 0, group_start(s, n - 1), n);
        lemma_closing_sum(s, now, n - 1);
    }
    assert(subtotal_sum(rows) == subtotal_sum(rows.drop_last()));
}


/// The subtotal row that closes a date holds the sum of its entries.
proof fn lemma_closing_sum(s: Seq<EntryView>, now: LocalDateTime, i: int)
    requires
        0 <= i < s.len(),
        running_sums_fit(s, now),
    ensures
        subtotal_sum(closing_rows(s, now, i)) == sum_range(s, now, group_start(s, i), i + 1),
{
    lemma_group_start_range(s, i);
    let total = sum_range(s, now, group_start(s, i), i + 1);
    lemma_fits(s, now, i + 1);
    let c = closing_rows(s, now, i);
    if total != 0 {
        assert(c.drop_last() =~= Seq::<ListRow>::empty());
        assert(c.last() == ListRow::Subtotal { nanos: total as i128 });
        assert((total as i128) as int == total);
        assert(subtotal_sum(c.drop_last()) == 0);
        assert(subtotal_sum(c) == subtotal_sum(c.drop_last()) + total);
    } else {
        assert(c.len() == 0);
        assert(subtotal_sum(c) == 0);
    }
}

} // verus!
