use chrono::{Datelike, Local, NaiveDate, TimeZone};
use sigan::models::{days_from_monday, EntryFilter, TimeEntry, TimePeriod};
use sigan::string_set::StringSet;
use sigan::time::LocalDateTime;
use sigan::SiganError;

fn local(y: i32, mo: u32, d: u32, h: u32, mi: u32, s: u32) -> LocalDateTime {
    let t = Local.with_ymd_and_hms(y, mo, d, h, mi, s).unwrap();
    LocalDateTime::from_parts(t.timestamp(), t.timestamp_subsec_nanos(), t.offset().local_minus_utc())
        .unwrap()
}

fn days(y: i32, m: u32, d: u32) -> i64 {
    NaiveDate::from_ymd_opt(y, m, d).unwrap().to_epoch_days() as i64
}

#[test]
fn new_entries_run_and_get_fresh_ids() {
    let start = local(2026, 5, 3, 10, 0, 0);
    let a = TimeEntry::new("demo".to_string(), start, "c".to_string(), StringSet::new());
    let b = TimeEntry::new("demo".to_string(), start, "c".to_string(), StringSet::new());
    assert_eq!(a.id.len(), 32);
    assert!(a.id.chars().all(|c| c.is_ascii_hexdigit() && !c.is_ascii_uppercase()));
    assert_ne!(a.id, b.id);
    assert_eq!(a.start_time, start);
    assert!(a.end_time.is_none());
    assert_eq!(a.project, "demo");
    assert_eq!(a.comment, "c");
}

#[test]
fn stopping_an_entry() {
    let start = local(2026, 5, 3, 10, 0, 0);
    let mut e = TimeEntry::new("demo".to_string(), start, String::new(), StringSet::new());
    assert_eq!(e.stop(local(2026, 5, 3, 9, 0, 0)), Err(SiganError::EndBeforeStart));
    assert!(e.end_time.is_none());
    assert_eq!(e.stop(start), Ok(()));
    assert_eq!(e.end_time, Some(start));
    assert_eq!(e.stop(local(2026, 5, 3, 11, 0, 0)), Err(SiganError::AlreadyStopped));
    assert_eq!(e.end_time, Some(start));
}

#[test]
fn weekdays_count_from_monday() {
    // 1970-01-01 was a Thursday.
    assert_eq!(days_from_monday(0), 3);
    assert_eq!(days_from_monday(-3), 0);
    assert_eq!(days_from_monday(-4), 6);
    let d = days(2026, 5, 3);
    assert_eq!(
        days_from_monday(d),
        NaiveDate::from_ymd_opt(2026, 5, 3).unwrap().weekday().num_days_from_monday() as i64
    );
}

#[test]
fn periods_become_date_ranges() {
    let today = days(2026, 5, 13);

    let mut f = EntryFilter::new();
    f.end_date = Some(today + 5);
    f.time_period = Some(TimePeriod::Today);
    f.apply_time_period(today);
    assert_eq!((f.start_date, f.end_date), (Some(today), Some(today + 5)));

    let mut f = EntryFilter::new();
    f.time_period = Some(TimePeriod::Yesterday);
    f.apply_time_period(today);
    assert_eq!((f.start_date, f.end_date), (Some(today - 1), Some(today - 1)));

    let mut f = EntryFilter::new();
    f.time_period = Some(TimePeriod::Week);
    f.apply_time_period(today);
    assert_eq!((f.start_date, f.end_date), (Some(days(2026, 5, 11)), None));

    let mut f = EntryFilter::new();
    f.time_period = Some(TimePeriod::Month);
    f.apply_time_period(today);
    assert_eq!((f.start_date, f.end_date), (Some(days(2026, 5, 1)), None));

    let mut f = EntryFilter::new();
    f.start_date = Some(3);
    f.time_period = Some(TimePeriod::All);
    f.apply_time_period(today);
    assert_eq!((f.start_date, f.end_date), (Some(3), None));
}

#[test]
fn string_sets_stay_sorted_without_repeats() {
    let mut s = StringSet::from_strings(vec!["b".to_string(), "a".to_string(), "b".to_string()]);
    assert_eq!(s.len(), 2);
    assert_eq!(s.to_vec(), vec!["a".to_string(), "b".to_string()]);
    s.insert("ab".to_string());
    s.insert("a".to_string());
    assert_eq!(s.to_vec(), vec!["a".to_string(), "ab".to_string(), "b".to_string()]);
    assert!(s.contains("ab"));
    assert!(!s.contains("c"));
    let mut t = StringSet::new();
    assert!(t.is_empty());
    t.insert("é".to_string());
    t.insert("z".to_string());
    assert_eq!(t.to_vec(), vec!["z".to_string(), "é".to_string()]);
    t.extend(&s);
    assert_eq!(t.len(), 5);
    assert_eq!(t.to_vec()[0], "a");
    assert_eq!(s.clone(), s);
}
