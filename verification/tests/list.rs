use chrono::{Local, TimeZone};
use sigan::models::TimeEntry;
use sigan::output::duration::{decimal_string, entry_duration, format_human_duration, minutes_of};
use sigan::output::list::{list_layout, ListRow};
use sigan::string_set::StringSet;
use sigan::time::LocalDateTime;

const HOUR: i128 = 3_600_000_000_000;

fn local(y: i32, mo: u32, d: u32, h: u32, mi: u32, s: u32) -> LocalDateTime {
    let t = Local.with_ymd_and_hms(y, mo, d, h, mi, s).unwrap();
    LocalDateTime::from_parts(t.timestamp(), t.timestamp_subsec_nanos(), t.offset().local_minus_utc())
        .unwrap()
}

fn entry(start: LocalDateTime, end: Option<LocalDateTime>) -> TimeEntry {
    TimeEntry {
        id: "abc123".to_string(),
        start_time: start,
        end_time: end,
        project: "demo".to_string(),
        tags: StringSet::new(),
        comment: String::new(),
    }
}

#[test]
fn one_finished_entry_gives_date_entry_subtotal_total() {
    let e = entry(local(2026, 5, 3, 10, 0, 0), Some(local(2026, 5, 3, 11, 0, 0)));
    let now = local(2026, 5, 4, 0, 0, 0);
    let date = e.start_time.local_date();
    let layout = list_layout(&[e], &now, true);
    assert_eq!(
        layout.rows,
        vec![
            ListRow::Day { date },
            ListRow::Entry { index: 0, nanos: HOUR },
            ListRow::Subtotal { nanos: HOUR },
            ListRow::Total { nanos: HOUR },
        ]
    );
    // The header is row 0: the line goes above the total only.
    assert_eq!(layout.separators, vec![4]);
}

#[test]
fn dates_get_their_own_subtotals() {
    let entries = [
        entry(local(2026, 5, 3, 9, 0, 0), Some(local(2026, 5, 3, 10, 0, 0))),
        entry(local(2026, 5, 3, 11, 0, 0), Some(local(2026, 5, 3, 13, 0, 0))),
        entry(local(2026, 5, 4, 9, 0, 0), Some(local(2026, 5, 4, 9, 0, 0))),
        entry(local(2026, 5, 5, 9, 0, 0), None),
    ];
    let now = local(2026, 5, 5, 9, 30, 0);
    let d3 = entries[0].start_time.local_date();
    let layout = list_layout(&entries, &now, true);
    assert_eq!(
        layout.rows,
        vec![
            ListRow::Day { date: d3 },
            ListRow::Entry { index: 0, nanos: HOUR },
            ListRow::Entry { index: 1, nanos: 2 * HOUR },
            ListRow::Subtotal { nanos: 3 * HOUR },
            ListRow::Day { date: d3 + 1 },
            ListRow::Entry { index: 2, nanos: 0 },
            ListRow::Day { date: d3 + 2 },
            ListRow::Entry { index: 3, nanos: HOUR / 2 },
            ListRow::Subtotal { nanos: HOUR / 2 },
            ListRow::Total { nanos: 3 * HOUR + HOUR / 2 },
        ]
    );
    assert_eq!(layout.separators, vec![5, 10]);
    let full = list_layout(&entries, &now, false);
    assert_eq!(full.rows, layout.rows);
    assert!(full.separators.is_empty());
}

#[test]
fn empty_listing_has_only_a_total() {
    let layout = list_layout(&[], &local(2026, 5, 3, 0, 0, 0), true);
    assert_eq!(layout.rows, vec![ListRow::Total { nanos: 0 }]);
    assert!(layout.separators.is_empty());
}

#[test]
fn durations_and_their_text() {
    let e = entry(local(2026, 5, 3, 10, 0, 0), None);
    assert_eq!(entry_duration(&e, &local(2026, 5, 3, 11, 10, 30)), HOUR + HOUR / 6 + 30_000_000_000);
    assert_eq!(entry_duration(&e, &local(2026, 5, 3, 9, 0, 0)), -HOUR);
    assert_eq!(minutes_of(HOUR + HOUR / 6 + 59_999_999_999), 70);
    assert_eq!(minutes_of(-HOUR), 0);
    assert_eq!(format_human_duration(70), "1h 10m");
    assert_eq!(format_human_duration(0), "0.0 hours");
    assert_eq!(format_human_duration(120), "2.0 hours");
    assert_eq!(format_human_duration(61), "1h 1m");
    assert_eq!(decimal_string(0), "0");
    assert_eq!(decimal_string(u64::MAX), u64::MAX.to_string());
}
