use chrono::{Local, TimeZone};
use sigan::models::{EntryFilter, TimeEntry};
use sigan::storage::file::{FileRepository, StorageFormat};
use sigan::storage::order::sort_entries;
use sigan::storage::{matches_filter, project_matches, MemoryRepository, TimeEntryRepository};
use sigan::string_set::StringSet;
use sigan::time::LocalDateTime;
use sigan::SiganError;

fn local(y: i32, mo: u32, d: u32, h: u32, mi: u32, s: u32) -> LocalDateTime {
    let t = Local.with_ymd_and_hms(y, mo, d, h, mi, s).unwrap();
    LocalDateTime::from_parts(t.timestamp(), t.timestamp_subsec_nanos(), t.offset().local_minus_utc())
        .unwrap()
}

fn set(values: &[&str]) -> StringSet {
    StringSet::from_strings(values.iter().map(|v| v.to_string()).collect())
}

fn entry(id: &str, project: &str, start: LocalDateTime, tags: &[&str]) -> TimeEntry {
    TimeEntry {
        id: id.to_string(),
        start_time: start,
        end_time: None,
        project: project.to_string(),
        tags: set(tags),
        comment: String::new(),
    }
}

#[test]
fn project_prefix_markers_match_sigye_behavior() {
    assert!(project_matches("abc+", "abc-123"));
    assert!(project_matches("abc.", "abc-123"));
    assert!(project_matches("abc*", "abc-123"));
    assert!(project_matches("abc-123", "abc-123"));
    assert!(!project_matches("abc", "abc-123"));
}

#[test]
fn prefix_markers_need_the_prefix() {
    assert!(!project_matches("abd*", "abc-123"));
    assert!(project_matches("*", "anything"));
    assert!(!project_matches("", "abc"));
    assert!(project_matches("", ""));
    assert!(project_matches("abc*", "abc"));
}

#[test]
fn filter_checks_id_project_dates_and_tags() {
    let e = entry("abc123", "demo", local(2026, 5, 3, 10, 0, 0), &["work"]);
    let date = local(2026, 5, 3, 10, 0, 0).local_date();

    assert!(matches_filter(&e, &EntryFilter::new()));

    let mut f = EntryFilter::new();
    f.id_prefix = Some("abc".to_string());
    assert!(matches_filter(&e, &f));
    f.id_prefix = Some("abd".to_string());
    assert!(!matches_filter(&e, &f));

    let mut f = EntryFilter::new();
    f.projects = set(&["other", "de*"]);
    assert!(matches_filter(&e, &f));
    f.projects = set(&["other"]);
    assert!(!matches_filter(&e, &f));

    let mut f = EntryFilter::new();
    f.start_date = Some(date);
    f.end_date = Some(date);
    assert!(matches_filter(&e, &f));
    f.start_date = Some(date + 1);
    assert!(!matches_filter(&e, &f));
    f.start_date = None;
    f.end_date = Some(date - 1);
    assert!(!matches_filter(&e, &f));

    let mut f = EntryFilter::new();
    f.tags = set(&["work", "play"]);
    assert!(matches_filter(&e, &f));
    f.tags = set(&["play"]);
    assert!(!matches_filter(&e, &f));
}

#[test]
fn sort_keeps_equal_starts_in_order() {
    let a = entry("a", "p", local(2026, 5, 3, 11, 0, 0), &[]);
    let b = entry("b", "p", local(2026, 5, 3, 9, 0, 0), &[]);
    let c = entry("c", "p", local(2026, 5, 3, 11, 0, 0), &[]);
    let d = entry("d", "p", local(2026, 5, 3, 10, 0, 0), &[]);
    let sorted = sort_entries(&[a, b, c, d]);
    let ids: Vec<&str> = sorted.iter().map(|e| e.id.as_str()).collect();
    assert_eq!(ids, vec!["b", "d", "a", "c"]);
}

#[test]
fn memory_store_saves_in_start_order() {
    let mut repo = MemoryRepository::new(Vec::new());
    let late = entry("late", "p", local(2026, 5, 3, 12, 0, 0), &[]);
    let early = entry("early", "p", local(2026, 5, 3, 8, 0, 0), &[]);
    repo.save(late.clone()).unwrap();
    repo.save(early).unwrap();
    let all = repo.get_all().unwrap();
    assert_eq!(all.len(), 2);
    assert_eq!(all[0].id, "early");
    assert_eq!(all[1].id, "late");

    let mut changed = late.clone();
    changed.comment = "again".to_string();
    repo.save(changed).unwrap();
    let all = repo.get_all().unwrap();
    assert_eq!(all.len(), 2);
    assert_eq!(all[1].comment, "again");

    let removed = repo.delete_entry("early").unwrap();
    assert_eq!(removed.map(|e| e.id), Some("early".to_string()));
    assert_eq!(repo.delete_entry("early").unwrap(), None);
    assert_eq!(repo.get_all().unwrap().len(), 1);
}

#[test]
fn active_entry_is_the_first_running_one() {
    let mut first = entry("one", "p", local(2026, 5, 3, 8, 0, 0), &[]);
    first.end_time = Some(local(2026, 5, 3, 9, 0, 0));
    let second = entry("two", "p", local(2026, 5, 3, 10, 0, 0), &[]);
    let mut repo = MemoryRepository::new(vec![first, second]);
    assert_eq!(repo.get_active_entry().unwrap().map(|e| e.id), Some("two".to_string()));
}

#[test]
fn storage_format_follows_the_extension() {
    assert_eq!(StorageFormat::from_path("entries.toml").unwrap(), StorageFormat::Toml);
    assert_eq!(StorageFormat::from_path("/a/b/entries.yaml").unwrap(), StorageFormat::Yaml);
    assert_eq!(StorageFormat::from_path("entries.yml").unwrap(), StorageFormat::Yaml);
    assert_eq!(StorageFormat::from_path("entries.json").unwrap(), StorageFormat::Json);
    assert!(StorageFormat::from_path("entries.JSON").is_err());
    assert!(matches!(
        StorageFormat::from_path("entries"),
        Err(SiganError::MissingExtension)
    ));
    match StorageFormat::from_path("entries.csv") {
        Err(SiganError::UnsupportedStorageFormat(ext)) => assert_eq!(ext, "csv"),
        other => panic!("unexpected {other:?}"),
    }
    assert!(matches!(
        StorageFormat::from_extension(None),
        Err(SiganError::MissingExtension)
    ));

    let repo = FileRepository::new("/tmp/entries.json").unwrap();
    assert_eq!(repo.path(), "/tmp/entries.json");
    assert_eq!(repo.format(), StorageFormat::Json);
    assert!(FileRepository::new("/tmp/entries.txt").is_err());
}

#[test]
fn saving_twice_stores_what_saving_once_stores() {
    let a = entry("a", "p", local(2026, 5, 3, 11, 0, 0), &[]);
    let b = entry("b", "p", local(2026, 5, 3, 9, 0, 0), &[]);
    let mut repo = MemoryRepository::new(vec![a, b]);
    let mut changed = entry("a", "q", local(2026, 5, 3, 8, 0, 0), &["x"]);
    changed.comment = "moved".to_string();
    repo.save(changed.clone()).unwrap();
    let once = repo.entries();
    repo.save(changed).unwrap();
    assert_eq!(repo.entries(), once);
    let ids: Vec<&str> = once.iter().map(|e| e.id.as_str()).collect();
    assert_eq!(ids, vec!["a", "b"]);
}
