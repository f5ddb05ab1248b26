use chrono::{Local, TimeZone};
use sigan::config::{AutoTagRule, Config};
use sigan::models::{EntryFilter, TimeEntry, TimePeriod};
use sigan::service::{EntryEditor, TimeTrackingService};
use sigan::storage::{MemoryRepository, TimeEntryRepository};
use sigan::string_set::StringSet;
use sigan::time::LocalDateTime;
use sigan::SiganError;

fn local(y: i32, mo: u32, d: u32, h: u32, mi: u32, s: u32) -> LocalDateTime {
    let t = Local.with_ymd_and_hms(y, mo, d, h, mi, s).unwrap();
    LocalDateTime::from_parts(t.timestamp(), t.timestamp_subsec_nanos(), t.offset().local_minus_utc())
        .unwrap()
}

fn set(values: &[&str]) -> StringSet {
    StringSet::from_strings(values.iter().map(|v| v.to_string()).collect())
}

fn service() -> TimeTrackingService<MemoryRepository> {
    TimeTrackingService::new(MemoryRepository::new(Vec::new()))
}

#[test]
fn starting_new_entry_stops_existing_active_entry() {
    let mut service = service();
    let first_start = local(2026, 6, 1, 9, 0, 0);
    let second_start = local(2026, 6, 1, 10, 0, 0);

    let first = service
        .start_tracking("first".to_string(), Some(first_start), String::new(), StringSet::new())
        .unwrap();
    let second = service
        .start_tracking("second".to_string(), Some(second_start), String::new(), StringSet::new())
        .unwrap();

    let mut repo = service.into_repository();
    let entries = repo.get_all().unwrap();
    assert_eq!(entries.len(), 2);
    let first = entries.iter().find(|entry| entry.id == first.id).unwrap();
    let second = entries.iter().find(|entry| entry.id == second.id).unwrap();
    assert_eq!(first.end_time, Some(second_start));
    assert!(second.end_time.is_none());
}

#[test]
fn list_all_does_not_apply_default_today_filter() {
    let mut service = service();
    let old_start = local(2020, 1, 1, 9, 0, 0);

    service
        .start_tracking("old".to_string(), Some(old_start), String::new(), StringSet::new())
        .unwrap();

    let mut filter = EntryFilter::new();
    filter.time_period = Some(TimePeriod::All);
    let entries = service.list(filter).unwrap();
    assert_eq!(entries.len(), 1);
}

#[test]
fn default_list_includes_older_active_entry_date_range() {
    let mut service = service();
    let active_start = local(2020, 1, 1, 9, 0, 0);

    service
        .start_tracking("older-active".to_string(), Some(active_start), String::new(), StringSet::new())
        .unwrap();

    let entries = service.list(EntryFilter::new()).unwrap();
    assert_eq!(entries.len(), 1);
    assert_eq!(entries[0].project, "older-active");
}

struct Rename;

impl EntryEditor for Rename {
    fn edit_entry(&self, entry: &TimeEntry) -> Result<TimeEntry, SiganError> {
        let mut updated = entry.clone();
        updated.project = updated.project.replace("old-project", "new-project");
        updated.comment = updated.comment.replace("old comment", "new comment");
        Ok(updated)
    }
}

#[test]
fn edit_updates_entry_from_shell_editor() {
    let mut service = service();
    let start = local(2026, 6, 1, 9, 0, 0);
    let entry = service
        .start_tracking("old-project".to_string(), Some(start), "old comment".to_string(), StringSet::new())
        .unwrap();

    let updated = service.edit(&entry.id[..4], &Rename).unwrap();

    assert_eq!(updated.project, "new-project");
    assert_eq!(updated.comment, "new comment");
    let stored = service.into_repository().entries();
    assert_eq!(stored.len(), 1);
    assert_eq!(stored[0].project, "new-project");
}

#[test]
fn start_tracking_preserves_merged_manual_and_auto_tags() {
    let mut service = service();
    let start = local(2026, 6, 1, 9, 0, 0);

    let entry = service
        .start_tracking("PROJ-123".to_string(), Some(start), String::new(), set(&["manual", "billable"]))
        .unwrap();

    assert!(entry.tags.contains("manual"));
    assert!(entry.tags.contains("billable"));
}

#[test]
fn parses_toml_auto_tag_rules() {
    let mut config = Config::defaults_with_editor("nano".to_string());
    config.data_filename = "/tmp/time_entries.toml".to_string();
    config.auto_tag_rules = vec![AutoTagRule {
        pattern: "^PROJ-\\d+".to_string(),
        match_type: "regex".to_string(),
        tags: vec!["work".to_string(), "billable".to_string()],
    }];

    let tags = config.apply_auto_tags("PROJ-123").unwrap();
    assert!(tags.contains("work"));
    assert!(tags.contains("billable"));
    assert!(config.apply_auto_tags("OTHER").unwrap().is_empty());
}

#[test]
fn auto_tag_rules_refuse_other_match_types_and_bad_patterns() {
    let mut config = Config::defaults_with_editor("nano".to_string());
    config.auto_tag_rules = vec![AutoTagRule {
        pattern: "PROJ".to_string(),
        match_type: "glob".to_string(),
        tags: vec!["work".to_string()],
    }];
    assert_eq!(
        config.apply_auto_tags("PROJ-1"),
        Err(SiganError::UnsupportedMatchType("glob".to_string()))
    );
    config.auto_tag_rules = vec![AutoTagRule {
        pattern: "(unclosed".to_string(),
        match_type: "regex".to_string(),
        tags: vec!["work".to_string()],
    }];
    assert_eq!(
        config.apply_auto_tags("PROJ-1"),
        Err(SiganError::InvalidPattern("(unclosed".to_string()))
    );
}

#[test]
fn starting_before_the_running_entry_is_refused() {
    let mut service = service();
    service
        .start_tracking("first".to_string(), Some(local(2026, 6, 1, 10, 0, 0)), String::new(), StringSet::new())
        .unwrap();
    let r = service.start_tracking(
        "second".to_string(),
        Some(local(2026, 6, 1, 9, 0, 0)),
        String::new(),
        StringSet::new(),
    );
    assert_eq!(r.unwrap_err(), SiganError::EndBeforeStart);
    assert_eq!(service.into_repository().entries().len(), 1);
}

#[test]
fn stop_tracking_ends_the_running_entry_with_the_comment() {
    let mut service = service();
    assert!(service.stop_tracking(None, None).unwrap().is_none());
    service
        .start_tracking("demo".to_string(), Some(local(2026, 6, 1, 9, 0, 0)), "start".to_string(), StringSet::new())
        .unwrap();
    let stop = local(2026, 6, 1, 9, 6, 0);
    let stopped = service
        .stop_tracking(Some(stop), Some("done".to_string()))
        .unwrap()
        .unwrap();
    assert_eq!(stopped.end_time, Some(stop));
    assert_eq!(stopped.comment, "done");
    assert!(service.status().unwrap().is_none());
    let kept = service
        .start_tracking("next".to_string(), Some(local(2026, 6, 1, 10, 0, 0)), "keep".to_string(), StringSet::new())
        .unwrap();
    let stopped = service
        .stop_tracking(Some(local(2026, 6, 1, 11, 0, 0)), Some(String::new()))
        .unwrap()
        .unwrap();
    assert_eq!(stopped.id, kept.id);
    assert_eq!(stopped.comment, "keep");
}

#[test]
fn delete_and_lookup_by_partial_id() {
    let mut service = service();
    let a = service
        .start_tracking("a".to_string(), Some(local(2026, 6, 1, 9, 0, 0)), String::new(), StringSet::new())
        .unwrap();
    assert_eq!(
        service.delete("zzzz-not-an-id"),
        Err(SiganError::NotFound("zzzz-not-an-id".to_string()))
    );
    let b = service
        .start_tracking("b".to_string(), Some(local(2026, 6, 1, 10, 0, 0)), String::new(), StringSet::new())
        .unwrap();
    assert_eq!(
        service.delete(""),
        Err(SiganError::MultipleMatches(String::new()))
    );
    let removed = service.delete(&a.id[..6]).unwrap();
    assert_eq!(removed.id, a.id);
    let rest = service.into_repository().entries();
    assert_eq!(rest.len(), 1);
    assert_eq!(rest[0].id, b.id);
}

#[test]
fn status_reports_the_running_entry() {
    let mut service = service();
    assert!(service.status().unwrap().is_none());
    let e = service
        .start_tracking("demo".to_string(), Some(local(2026, 6, 1, 9, 0, 0)), String::new(), StringSet::new())
        .unwrap();
    assert_eq!(service.status().unwrap().unwrap().id, e.id);
    assert_eq!(e.id.len(), 32);
    assert!(e.id.chars().all(|c| c.is_ascii_hexdigit() && !c.is_ascii_uppercase()));
}

#[test]
fn list_as_of_uses_the_period() {
    let mut service = service();
    // 2026-06-01 is a Monday.
    service
        .start_tracking("mon".to_string(), Some(local(2026, 6, 1, 9, 0, 0)), String::new(), StringSet::new())
        .unwrap();
    service
        .start_tracking("tue".to_string(), Some(local(2026, 6, 2, 9, 0, 0)), String::new(), StringSet::new())
        .unwrap();
    service
        .start_tracking("may".to_string(), Some(local(2026, 5, 20, 9, 0, 0)), String::new(), StringSet::new())
        .unwrap_err();
    let wed = local(2026, 6, 3, 12, 0, 0).local_date();
    let mut f = EntryFilter::new();
    f.time_period = Some(TimePeriod::Yesterday);
    let v = service.list_as_of(f, wed).unwrap();
    assert_eq!(v.len(), 1);
    assert_eq!(v[0].project, "tue");
    let mut f = EntryFilter::new();
    f.time_period = Some(TimePeriod::Week);
    assert_eq!(service.list_as_of(f, wed).unwrap().len(), 2);
    let mut f = EntryFilter::new();
    f.time_period = Some(TimePeriod::Today);
    assert_eq!(service.list_as_of(f, wed).unwrap().len(), 0);
    let mut f = EntryFilter::new();
    f.time_period = Some(TimePeriod::Month);
    assert_eq!(service.list_as_of(f, wed).unwrap().len(), 2);
    // With no period, the listing runs from the running entry's date.
    let v = service.list_as_of(EntryFilter::new(), wed).unwrap();
    assert_eq!(v.len(), 1);
    assert_eq!(v[0].project, "tue");
}

#[test]
fn editing_in_two_steps_hands_over_the_matching_entry() {
    let mut service = service();
    let start = local(2026, 6, 1, 9, 0, 0);
    let entry = service
        .start_tracking("old-project".to_string(), Some(start), String::new(), StringSet::new())
        .unwrap();

    let found = service.entry_for_edit(&entry.id[..4]).unwrap();
    assert_eq!(found, entry);
    let mut updated = found.clone();
    updated.project = "new-project".to_string();
    let stored = service.store_edited(&entry.id[..4], updated.clone()).unwrap();
    assert_eq!(stored, updated);
    assert!(matches!(service.entry_for_edit("zzz"), Err(SiganError::NotFound(p)) if p == "zzz"));
    assert!(matches!(service.store_edited("zzz", updated.clone()), Err(SiganError::NotFound(_))));
    assert!(matches!(service.edit("zzz", &Rename), Err(SiganError::NotFound(_))));
    service
        .start_tracking("other".to_string(), Some(local(2026, 6, 1, 10, 0, 0)), String::new(), StringSet::new())
        .unwrap();
    assert!(matches!(service.edit("", &Rename), Err(SiganError::MultipleMatches(_))));
    let entries = service.into_repository().entries();
    assert_eq!(entries.len(), 2);
    assert_eq!(entries[0].project, "new-project");
}
