use chrono::{DateTime, Local, TimeZone};
use sigan::models::TimeEntry;
use sigan::output::cells::{
    export_message, export_summary_rows, id_prefix_shown, list_cells, single_record_rows,
};
use sigan::output::layout::colorize;
use sigan::output::layout::AnsiColor;
use sigan::output::list::{list_layout, ListRow};
use sigan::output::records::{
    csv_fields, entry_to_markdown_row, entry_to_text, format_toml_entry, join_strings,
};
use sigan::output::Locale;
use sigan::string_set::StringSet;
use sigan::time::LocalDateTime;

fn chrono_local(y: i32, mo: u32, d: u32, h: u32, mi: u32, s: u32) -> DateTime<Local> {
    Local.with_ymd_and_hms(y, mo, d, h, mi, s).unwrap()
}

fn lib_time(t: DateTime<Local>) -> LocalDateTime {
    LocalDateTime::from_parts(t.timestamp(), t.timestamp_subsec_nanos(), t.offset().local_minus_utc())
        .unwrap()
}

fn sample(end: bool) -> (TimeEntry, DateTime<Local>, DateTime<Local>) {
    let start = chrono_local(2026, 5, 3, 10, 0, 0);
    let stop = chrono_local(2026, 5, 3, 11, 30, 0);
    let entry = TimeEntry {
        id: "abc123".to_string(),
        start_time: lib_time(start),
        end_time: if end { Some(lib_time(stop)) } else { None },
        project: "demo".to_string(),
        tags: StringSet::from_strings(vec!["work".to_string(), "editing".to_string()]),
        comment: "a \"quoted\" note".to_string(),
    };
    (entry, start, stop)
}

#[test]
fn text_line_matches_display_and_debug() {
    let (entry, start, stop) = sample(true);
    let tags: std::collections::BTreeSet<String> =
        ["work".to_string(), "editing".to_string()].into_iter().collect();
    let expected = format!(
        "{} {} {} {} {} {:?}",
        entry.id, start, stop, entry.project, entry.comment, tags
    );
    assert_eq!(entry_to_text(&entry), expected);
    let (running, start, _) = sample(false);
    assert!(entry_to_text(&running).starts_with(&format!("abc123 {start} None demo")));
}

#[test]
fn markdown_and_csv_forms() {
    let (entry, start, stop) = sample(true);
    assert_eq!(
        entry_to_markdown_row(&entry),
        format!("| abc123 | {start} | {stop} | demo | a \"quoted\" note | editing, work |")
    );
    let (running, start, _) = sample(false);
    assert_eq!(
        csv_fields(&running),
        vec![
            "abc123".to_string(),
            start.to_string(),
            String::new(),
            "demo".to_string(),
            "a \"quoted\" note".to_string(),
            "editing,work".to_string(),
        ]
    );
    assert_eq!(join_strings(&vec![], ", "), "");
    assert_eq!(join_strings(&vec!["a".to_string()], ", "), "a");
}

/// Reads the entry back from its TOML editing text, as the program does.
fn parse_toml_entry(content: &str) -> TimeEntry {
    let mut table: toml::Table = toml::from_str(content).unwrap();
    if table.get("end_time").and_then(|v| v.as_str()) == Some("null") {
        table.remove("end_time");
    }
    let time = |key: &str| {
        table
            .get(key)
            .map(|v| lib_time(DateTime::parse_from_rfc3339(v.as_str().unwrap()).unwrap().with_timezone(&Local)))
    };
    TimeEntry {
        id: table["id"].as_str().unwrap().to_string(),
        start_time: time("start_time").unwrap(),
        end_time: time("end_time"),
        project: table["project"].as_str().unwrap().to_string(),
        tags: StringSet::from_strings(
            table["tags"]
                .as_array()
                .unwrap()
                .iter()
                .map(|v| v.as_str().unwrap().to_string())
                .collect(),
        ),
        comment: table["comment"].as_str().unwrap().to_string(),
    }
}

#[test]
fn toml_editor_format_uses_entry_field_order() {
    let entry = TimeEntry {
        id: "abc123".to_string(),
        start_time: lib_time(chrono_local(2026, 6, 1, 9, 0, 0)),
        end_time: None,
        project: "demo".to_string(),
        tags: StringSet::from_strings(vec!["work".to_string()]),
        comment: "editing".to_string(),
    };

    let content = format_toml_entry(&entry).unwrap();
    let fields = content
        .lines()
        .filter_map(|line| line.split_once(" = ").map(|(field, _)| field))
        .collect::<Vec<_>>();

    assert_eq!(
        fields,
        ["id", "start_time", "end_time", "project", "comment", "tags"]
    );
    assert!(content.contains("end_time = \"null\""));
    assert_eq!(parse_toml_entry(&content), entry);
}

#[test]
fn toml_editor_text_quotes_values_as_toml_does() {
    let (entry, start, stop) = sample(true);
    let text = format_toml_entry(&entry).unwrap();
    assert!(text.starts_with("id = \"abc123\"\n"));
    assert!(text.contains(&format!("start_time = \"{}\"\n", start.to_rfc3339())));
    assert!(text.contains(&format!("end_time = \"{}\"\n", stop.to_rfc3339())));
    assert!(text.contains("comment = 'a \"quoted\" note'\n"));
    assert_eq!(parse_toml_entry(&text), entry);
}

#[test]
fn short_ids_are_the_first_four_bytes() {
    assert_eq!(id_prefix_shown("abc123"), "abc1");
    assert_eq!(id_prefix_shown("ab"), "ab");
    assert_eq!(id_prefix_shown(""), "");
    assert_eq!(id_prefix_shown("éé"), "éé");
    assert_eq!(id_prefix_shown("aéb"), "aéb");
    assert_eq!(id_prefix_shown("aaé"), "aaé");
    assert_eq!(id_prefix_shown("abcdé"), "abcd");
}

#[test]
fn record_rows_label_and_color_each_field() {
    let (entry, start, stop) = sample(true);
    let rows = single_record_rows(Locale::English, &entry, "1.5 hours");
    assert_eq!(rows.len(), 8);
    assert_eq!(rows[0].0, colorize("field", AnsiColor::DarkGrey));
    assert_eq!(rows[1], ("ID".to_string(), colorize("abc123", AnsiColor::Magenta)));
    assert_eq!(
        rows[2].1,
        colorize(&start.format("%Y-%m-%d %H:%M:%S").to_string(), AnsiColor::Cyan)
    );
    assert_eq!(rows[3].1, colorize(&stop.format("%H:%M:%S").to_string(), AnsiColor::Magenta));
    assert_eq!(rows[4].1, colorize("1.5 hours", AnsiColor::Cyan));
    assert_eq!(rows[7].1, colorize("editing, work", AnsiColor::Red));
    let (running, _, _) = sample(false);
    let rows = single_record_rows(Locale::Korean, &running, "0.0 hours");
    assert_eq!(rows[1].0, "아이디");
    assert_eq!(rows[3].1, "-");
}

#[test]
fn list_cells_follow_the_rows() {
    let (entry, start, stop) = sample(true);
    let now = lib_time(chrono_local(2026, 5, 4, 0, 0, 0));
    let layout = list_layout(&[entry.clone()], &now, true);
    let deltas: Vec<String> = layout
        .rows
        .iter()
        .map(|row| match row {
            ListRow::Day { .. } => String::new(),
            _ => "1.5 hours".to_string(),
        })
        .collect();
    let cells = list_cells(Locale::English, &[entry], &layout.rows, &deltas);
    assert_eq!(cells.len(), 5);
    assert_eq!(cells[0][0], colorize("id", AnsiColor::DarkGrey));
    assert_eq!(cells[1][1], colorize(&start.format("%Y-%m-%d").to_string(), AnsiColor::Yellow));
    assert_eq!(cells[2][0], colorize("abc1", AnsiColor::DarkGrey));
    assert_eq!(cells[2][2], colorize(&stop.format("%H:%M:%S").to_string(), AnsiColor::Magenta));
    assert_eq!(cells[3][1], colorize("subtotal", AnsiColor::DarkGrey));
    assert_eq!(cells[4][1], colorize("total", AnsiColor::Yellow));
    assert_eq!(cells[4][3], colorize("1.5 hours", AnsiColor::Yellow));
    assert!(cells.iter().all(|row| row.len() == 7));
}

#[test]
fn export_report() {
    assert_eq!(export_message(3, "/tmp/out.json"), "Exported 3 entries to /tmp/out.json");
    let rows = export_summary_rows(Locale::Korean, 12, "x.toml");
    assert_eq!(rows[0].0, colorize("내보낸 기록 수", AnsiColor::Cyan));
    assert_eq!(rows[1], (colorize("12", AnsiColor::Green), colorize("x.toml", AnsiColor::Blue)));
}
