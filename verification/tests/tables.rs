use chrono::{Local, TimeZone};
use sigan::models::TimeEntry;
use sigan::output::duration::minutes_of;
use sigan::output::layout::AnsiColor;
use sigan::output::list::{list_layout, ListRow};
use sigan::output::table::{render_list, render_message, render_two_column};
use sigan::output::{DeltaFormat, Locale, OutputOptions, TableInnerBorders, TableStyle};
use sigan::string_set::StringSet;
use sigan::time::LocalDateTime;

fn local(y: i32, mo: u32, d: u32, h: u32, mi: u32, s: u32) -> LocalDateTime {
    let t = Local.with_ymd_and_hms(y, mo, d, h, mi, s).unwrap();
    LocalDateTime::from_parts(t.timestamp(), t.timestamp_subsec_nanos(), t.offset().local_minus_utc())
        .unwrap()
}

fn finished_entry() -> TimeEntry {
    TimeEntry {
        id: "abcdef123456".to_string(),
        start_time: local(2026, 6, 2, 9, 0, 0),
        end_time: Some(local(2026, 6, 2, 10, 0, 0)),
        project: "demo".to_string(),
        tags: StringSet::from_strings(vec!["work".to_string()]),
        comment: "render check".to_string(),
    }
}

fn strip_ansi(value: &str) -> String {
    let mut stripped = String::new();
    let mut chars = value.chars().peekable();
    while let Some(char) = chars.next() {
        if char == '\u{1b}' && chars.peek() == Some(&'[') {
            chars.next();
            for code_char in chars.by_ref() {
                if code_char.is_ascii_alphabetic() {
                    break;
                }
            }
            continue;
        }
        stripped.push(char);
    }
    stripped
}

/// Draws a listing as the program does, with decimal hours.
fn render_tabled_ansi_many_with_width(
    options: OutputOptions,
    entries: &[TimeEntry],
    table_width: usize,
) -> String {
    let now = local(2026, 6, 3, 0, 0, 0);
    let layout = list_layout(entries, &now, options.table_style.is_condensed());
    let deltas: Vec<String> = layout
        .rows
        .iter()
        .map(|row| match row {
            ListRow::Day { .. } => String::new(),
            ListRow::Entry { nanos, .. } | ListRow::Subtotal { nanos } | ListRow::Total { nanos } => {
                format!("{:.1} hours", minutes_of(*nanos) as f64 / 60.0)
            }
        })
        .collect();
    render_list(options, entries, &layout.rows, &layout.separators, &deltas, table_width)
}

fn render_tabled_ansi_many(options: OutputOptions, entries: &[TimeEntry]) -> String {
    render_tabled_ansi_many_with_width(options, entries, 100)
}

fn options(table_style: TableStyle) -> OutputOptions {
    OutputOptions {
        delta_format: DeltaFormat::DecimalHours,
        table_style,
        table_inner_borders: TableInnerBorders::Solid,
        locale: Locale::English,
    }
}

#[test]
fn condensed_list_uses_real_separator_after_subtotal_only() {
    let options = options(TableStyle::Utf8Condensed);
    let rendered = render_tabled_ansi_many(options, &[finished_entry()]);
    let visible = strip_ansi(&rendered);
    let horizontal_count = rendered
        .lines()
        .filter(|line| line.starts_with('├'))
        .count();

    assert!(rendered.contains("\x1b[3;37mTime Records\x1b[0m"));
    assert_eq!(visible.lines().next().unwrap().trim(), "Time Records");
    assert_eq!(horizontal_count, 2);
    assert!(!rendered.contains('┅'));
    assert!(rendered.find("subtotal").unwrap() < rendered.rfind('├').unwrap());
    assert!(rendered.rfind('├').unwrap() < rendered.rfind("total").unwrap());
}

#[test]
fn full_list_uses_real_solid_row_separators() {
    let options = options(TableStyle::Utf8);
    let rendered = render_tabled_ansi_many(options, &[finished_entry()]);

    assert!(
        rendered
            .lines()
            .filter(|line| line.starts_with('├'))
            .count()
            > 2
    );
    assert!(rendered.contains('─'));
    assert!(rendered.contains('┼'));
    assert!(!rendered.contains('╌'));
    assert!(!rendered.contains('┆'));
}

#[test]
fn single_record_table_uses_wider_label_column() {
    let options = options(TableStyle::Utf8Condensed);

    let rendered = render_two_column(
        options,
        "Time Record",
        &vec![
            ("field".to_string(), "value".to_string()),
            ("start time".to_string(), "2026-05-03 10:00:00".to_string()),
        ],
        13,
        100,
    );
    let visible = strip_ansi(&rendered);
    let mut lines = visible.lines();

    assert!(rendered.contains("\x1b[3;37mTime Record\x1b[0m"));
    assert_eq!(lines.next().unwrap().trim(), "Time Record");
    assert!(lines.next().unwrap().starts_with('╭'));
    assert!(visible.contains("│ field       │ value"));
    assert!(visible.contains("├─────────────┼"));
    assert!(visible.contains("│ start time  │"));
}

#[test]
fn list_wraps_long_comments_to_configured_width() {
    let options = options(TableStyle::Utf8Condensed);
    let mut entry = finished_entry();
    entry.comment = "this is a deliberately long comment that should wrap instead of pushing the table past the configured terminal width".to_string();

    let rendered = render_tabled_ansi_many_with_width(options, &[entry], 80);
    let visible = strip_ansi(&rendered);

    assert!(
        visible.lines().all(|line| line.chars().count() <= 80),
        "{rendered}"
    );
    assert!(visible.contains("deliberately"));
}

#[test]
fn list_wraps_to_narrow_terminal_width() {
    let options = options(TableStyle::Utf8Condensed);
    let mut entry = finished_entry();
    entry.comment = "narrow terminals should still get bounded list output".to_string();

    let rendered = render_tabled_ansi_many_with_width(options, &[entry], 70);
    let visible = strip_ansi(&rendered);

    assert!(
        visible.lines().all(|line| line.chars().count() <= 70),
        "{rendered}"
    );
}

#[test]
fn message_table_holds_the_title_and_message() {
    let rendered = render_message(
        options(TableStyle::Ascii),
        "Status",
        "No active time record.",
        AnsiColor::Yellow,
        100,
    );
    let visible = strip_ansi(&rendered);
    assert!(visible.contains("Status"));
    assert!(visible.contains("No active time record."));
    assert!(visible.starts_with('+'));
    let plain = render_message(options(TableStyle::Plain), "Status", "x", AnsiColor::Red, 100);
    assert!(!strip_ansi(&plain).contains('+'));
}
