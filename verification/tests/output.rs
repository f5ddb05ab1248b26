use sigan::output::duration::{decimal_string, format_human_duration, minutes_of};
use sigan::output::layout::{
    colorize, comment_column_width, english_message, italicize, parse_u16, table_width, translate,
    two_column_value_width, visible_width, with_centered_title, AnsiColor,
};
use sigan::output::{DeltaFormat, Locale, OutputFormat, TableInnerBorders, TableStyle};
use sigan::SiganError;

#[test]
fn delta_format_parses_aliases() {
    assert_eq!(
        DeltaFormat::parse("decimal").unwrap(),
        DeltaFormat::DecimalHours
    );
    assert_eq!(
        DeltaFormat::parse("tenths").unwrap(),
        DeltaFormat::DecimalHours
    );
    assert_eq!(DeltaFormat::parse("human").unwrap(), DeltaFormat::Human);
}

#[test]
fn human_delta_format_uses_hours_and_minutes() {
    assert_eq!(format_human_duration(70), "1h 10m");
}

#[test]
fn table_style_parses_condensed_and_solid_border_options() {
    assert_eq!(
        TableStyle::parse("utf8-condensed").unwrap(),
        TableStyle::Utf8Condensed
    );
    assert_eq!(TableStyle::parse("ascii").unwrap(), TableStyle::Ascii);
    assert_eq!(
        TableInnerBorders::parse("solid").unwrap(),
        TableInnerBorders::Solid
    );
}

#[test]
fn korean_locale_translates_python_supported_labels() {
    assert_eq!(Locale::parse("ko_KR").unwrap(), Locale::Korean);
    assert_eq!(translate(Locale::Korean, "Time Records"), "시간 기록");
    assert_eq!(translate(Locale::Korean, "subtotal"), "소계");
    assert_eq!(
        translate(Locale::Korean, "No active time record."),
        "시간 기록 없음."
    );
}

#[test]
fn unknown_names_are_refused_with_the_name() {
    assert_eq!(
        DeltaFormat::parse("minutes"),
        Err(SiganError::UnsupportedDeltaFormat("minutes".to_string()))
    );
    assert_eq!(
        TableStyle::parse("fancy"),
        Err(SiganError::UnsupportedTableStyle("fancy".to_string()))
    );
    assert_eq!(
        TableInnerBorders::parse("thick"),
        Err(SiganError::UnsupportedInnerBorders("thick".to_string()))
    );
    assert_eq!(
        Locale::parse("fr"),
        Err(SiganError::UnsupportedLocale("fr".to_string()))
    );
    assert_eq!(
        OutputFormat::parse("html"),
        Err(SiganError::UnsupportedOutputFormat("html".to_string()))
    );
    assert_eq!(
        OutputFormat::parse("html").unwrap_err().message(),
        "unsupported output format: html"
    );
}

#[test]
fn every_alias_names_its_style() {
    assert_eq!(TableStyle::parse("none").unwrap(), TableStyle::Plain);
    assert_eq!(TableStyle::parse("plain").unwrap(), TableStyle::Plain);
    assert_eq!(TableStyle::parse("unicode").unwrap(), TableStyle::Utf8);
    assert_eq!(
        TableStyle::parse("ascii-borders-only-condensed").unwrap(),
        TableStyle::AsciiBordersOnlyCondensed
    );
    assert!(TableStyle::Utf8Condensed.is_condensed());
    assert!(TableStyle::AsciiCondensed.is_condensed());
    assert!(!TableStyle::Utf8.is_condensed());
    assert!(TableStyle::Utf8NoBorders.is_utf8());
    assert!(!TableStyle::Ascii.is_utf8());
    assert_eq!(OutputFormat::parse("rich").unwrap(), OutputFormat::Ansi);
    assert_eq!(OutputFormat::parse("md").unwrap(), OutputFormat::Markdown);
    assert_eq!(
        TableInnerBorders::parse("dashed").unwrap(),
        TableInnerBorders::Dotted
    );
    assert_eq!(Locale::parse("en_GB").unwrap(), Locale::English);
    assert_eq!(DeltaFormat::parse("clock").unwrap(), DeltaFormat::Human);
}

#[test]
fn english_labels_and_unknown_labels() {
    assert_eq!(translate(Locale::English, "subtotal"), "subtotal");
    assert_eq!(translate(Locale::English, "nonsense"), "");
    assert_eq!(translate(Locale::Korean, "nonsense"), "");
    assert_eq!(english_message("records exported"), "records exported");
}

#[test]
fn colors_wrap_text_and_leave_empty_text_alone() {
    assert_eq!(colorize("demo", AnsiColor::Green), "\x1b[32mdemo\x1b[0m");
    assert_eq!(colorize("", AnsiColor::Green), "");
    assert_eq!(italicize("Time Records", AnsiColor::White), "\x1b[3;37mTime Records\x1b[0m");
    assert_eq!(AnsiColor::DarkGrey.code(), "90");
}

#[test]
fn visible_width_skips_escape_sequences() {
    assert_eq!(visible_width("\x1b[32mdemo\x1b[0m"), 4);
    assert_eq!(visible_width("plain"), 5);
    assert_eq!(visible_width("╭──╮"), 4);
    assert_eq!(visible_width("\x1b[3;37m"), 0);
}

#[test]
fn title_is_centered_over_the_first_line() {
    let table = "╭────────────╮\n│ a          │".to_string();
    let titled = with_centered_title(table.clone(), "Title");
    assert_eq!(
        titled,
        format!("    \x1b[3;37mTitle\x1b[0m\n{}", table)
    );
    assert_eq!(
        with_centered_title(String::new(), "Title"),
        "\x1b[3;37mTitle\x1b[0m\n"
    );
}

#[test]
fn column_widths_are_clamped() {
    assert_eq!(comment_column_width(100), 25);
    assert_eq!(comment_column_width(80), 12);
    assert_eq!(comment_column_width(70), 4);
    assert_eq!(comment_column_width(500), 72);
    assert_eq!(two_column_value_width(100, 13), 80);
    assert_eq!(two_column_value_width(10, 13), 8);
    assert_eq!(two_column_value_width(1000, 13), 100);
}

#[test]
fn durations_count_whole_minutes() {
    assert_eq!(minutes_of(12 * 60_000_000_000), 12);
    assert_eq!(minutes_of(60_000_000_000 - 1), 0);
    assert_eq!(minutes_of(-5 * 60_000_000_000), 0);
    assert_eq!(format_human_duration(120), "2.0 hours");
    assert_eq!(format_human_duration(5), "0h 5m");
    assert_eq!(decimal_string(0), "0");
    assert_eq!(decimal_string(1234567), "1234567");
}

#[test]
fn numbers_read_as_std_reads_them() {
    for text in ["0", "80", "+120", "65535", "65536", "", "+", "-1", " 80", "8o", "007", "99999999"] {
        assert_eq!(parse_u16(text), text.parse::<u16>().ok(), "{text}");
    }
}

#[test]
fn tables_fit_the_terminal_or_columns() {
    assert_eq!(table_width(true, Some(120), None), 120);
    assert_eq!(table_width(true, Some(0), None), 100);
    assert_eq!(table_width(true, None, Some("200".to_string())), 100);
    assert_eq!(table_width(false, Some(120), Some("90".to_string())), 90);
    assert_eq!(table_width(false, None, Some("79".to_string())), 100);
    assert_eq!(table_width(false, None, Some("wide".to_string())), 100);
    assert_eq!(table_width(false, None, None), 100);
}
