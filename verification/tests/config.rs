use sigan::cli::{apply_overrides, output_settings, parse_date, Overrides};
use sigan::config::{
    choose_config_path, default_config_dir, default_data_path, default_editor, join_path, Config,
};
use sigan::output::{DeltaFormat, Locale, OutputFormat, TableInnerBorders, TableStyle};
use sigan::SiganError;

/// The settings a configuration text gives: the defaults, with each
/// string value of the text in place of its default.
fn config_from_toml(text: &str) -> Config {
    let table: toml::Table = toml::from_str(text).unwrap();
    let mut config = Config::defaults_with_editor(default_editor(None));
    for (key, value) in table.iter() {
        let value = value.as_str().unwrap().to_string();
        match key.as_str() {
            "data_filename" => config.data_filename = value,
            "output" => config.output = value,
            "editor" => config.editor = value,
            "editor_format" => config.editor_format = value,
            "delta_format" => config.delta_format = value,
            "table_style" => config.table_style = value,
            "table_inner_borders" => config.table_inner_borders = value,
            "locale" => config.locale = value,
            other => panic!("unexpected key {other}"),
        }
    }
    config
}

#[test]
fn config_data_filename_defaults_when_omitted() {
    let config = config_from_toml(
        r#"
output = "json"
delta_format = "human"
"#,
    );

    assert_eq!(config.data_filename, default_data_path());
    assert_eq!(config.output, "json");
    assert_eq!(config.delta_format, "human");
    assert_eq!(config.table_style, "utf8-condensed");
    assert_eq!(config.table_inner_borders, "solid");
    assert_eq!(config.locale, "en_US");
}

#[test]
fn defaults_name_the_usual_settings() {
    let config = Config::defaults_with_editor("nano".to_string());
    assert_eq!(config.output, "ansi");
    assert_eq!(config.editor, "nano");
    assert_eq!(config.editor_format, "yaml");
    assert_eq!(config.delta_format, "decimal");
    assert!(config.auto_tag_rules.is_empty());
    assert!(config.data_filename.ends_with("/.config/sigan/time_entries.toml"));
    assert!(default_config_dir().ends_with(".config/sigan"));
}

#[test]
fn editor_defaults_to_nano() {
    assert_eq!(default_editor(None), "nano");
    assert_eq!(default_editor(Some("emacs".to_string())), "emacs");
}

#[test]
fn paths_join_with_one_slash() {
    assert_eq!(join_path("/home/a".to_string(), "b"), "/home/a/b");
    assert_eq!(join_path("/home/a/".to_string(), "b"), "/home/a/b");
    assert_eq!(join_path(String::new(), "b"), "b");
}

#[test]
fn config_path_prefers_the_existing_file() {
    let p = || "preferred".to_string();
    let q = || "platform".to_string();
    assert_eq!(choose_config_path(p(), true, q(), true), "preferred");
    assert_eq!(choose_config_path(p(), false, q(), true), "platform");
    assert_eq!(choose_config_path(p(), false, q(), false), "preferred");
}

#[test]
fn command_line_settings_take_the_place_of_configured_ones() {
    let mut config = Config::defaults_with_editor("vi".to_string());
    apply_overrides(
        &mut config,
        Overrides {
            filename: Some("/tmp/x.json".to_string()),
            delta_format: None,
            table_style: Some("ascii".to_string()),
            table_inner_borders: None,
            locale: Some("ko_KR".to_string()),
        },
    );
    assert_eq!(config.data_filename, "/tmp/x.json");
    assert_eq!(config.delta_format, "decimal");
    assert_eq!(config.table_style, "ascii");
    assert_eq!(config.table_inner_borders, "solid");
    assert_eq!(config.locale, "ko_KR");

    let (format, options) = output_settings(&config, None).unwrap();
    assert_eq!(format, OutputFormat::Ansi);
    assert_eq!(options.delta_format, DeltaFormat::DecimalHours);
    assert_eq!(options.table_style, TableStyle::Ascii);
    assert_eq!(options.table_inner_borders, TableInnerBorders::Solid);
    assert_eq!(options.locale, Locale::Korean);

    let (format, _) = output_settings(&config, Some(OutputFormat::Json)).unwrap();
    assert_eq!(format, OutputFormat::Json);

    config.locale = "fr_FR".to_string();
    assert!(output_settings(&config, None).is_err());
}

#[test]
fn dates_are_read_as_days_since_1970() {
    assert_eq!(parse_date("1970-01-01").unwrap(), 0);
    assert_eq!(parse_date("2026-05-03").unwrap(), 20576);
    assert!(matches!(parse_date("2026-13-01"), Err(SiganError::InvalidDate(_))));
    assert!(matches!(parse_date("yesterday"), Err(SiganError::InvalidDate(_))));
}
