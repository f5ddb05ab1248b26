//! The decisions of the command line that do not touch the terminal:
//! turning options and settings into values.

use vstd::prelude::*;

use crate::config::{Config, auto_tags_from, same_error};
use crate::error::SiganError;
use crate::models::TimeEntry;
use crate::output::{
    DeltaFormat, Locale, OutputFormat, OutputOptions, TableInnerBorders, TableStyle,
    delta_format_named, inner_borders_named, locale_named, output_format_named, table_style_named,
};
use crate::storage::TimeEntryRepository;
use crate::storage::order::{sort_by_start, views};
use crate::string_set::StringSet;

verus! {

/// The set of the given values.
pub fn into_set(values: Vec<String>) -> (r: StringSet)
    ensures
        r@ == values@.map_values(|s: String| s@).to_set(),
{
    StringSet::from_strings(values)
}

/// The tags of a new entry: those given on the command line and those the
/// auto-tag rules give the project. Refused as `apply_auto_tags` is.
pub fn start_tags(given: Vec<String>, config: &Config, project: &str) -> (r: Result<
    StringSet,
    SiganError,
>)
    ensures
        match (r, auto_tags_from(config.auto_tag_rules@, project@, Set::empty())) {
            (Ok(tags), Ok(auto)) => tags@ == given@.map_values(|s: String| s@).to_set().union(auto),
            (Err(e), Err(expected)) => same_error(e, expected),
            _ => false,
        },
{
    let mut tags = into_set(given);
    match config.apply_auto_tags(project) {
        Ok(auto) => {
            tags.extend(&auto);
            Ok(tags)
        },
        Err(e) => Err(e),
    }
}

/// What `chrono` reads from `text` with the pattern `%Y-%m-%d`, as days
/// since 1970-01-01.
pub uninterp spec fn parsed_date(text: Seq<char>) -> Option<i64>;

/// Reads a date.
///
/// Trusted: calls `chrono::NaiveDate::parse_from_str(value, "%Y-%m-%d")`
/// and counts the days since 1970-01-01 with `to_epoch_days`. The contract
/// names the result; the text of a refusal is `chrono`'s and is not
/// stated.
#[verifier::external_body]
fn parse_ymd(value: &str) -> (r: Result<i64, String>)
    ensures
        r is Ok <==> parsed_date(value@) is Some,
        r matches Ok(d) ==> parsed_date(value@) == Some(d),
{
    match chrono::NaiveDate::parse_from_str(value, "%Y-%m-%d") {
        Ok(d) => Ok(d.to_epoch_days() as i64),
        Err(e) => Err(e.to_string()),
    }
}

/// Reads a date written `YYYY-MM-DD`, as days since 1970-01-01.
pub fn parse_date(value: &str) -> (r: Result<i64, SiganError>)
    ensures
        r is Ok <==> parsed_date(value@) is Some,
        r matches Ok(d) ==> parsed_date(value@) == Some(d),
        r matches Err(e) ==> e is InvalidDate,
{
    match parse_ymd(value) {
        Ok(d) => Ok(d),
        Err(m) => Err(SiganError::InvalidDate(m)),
    }
}

/// Settings given on the command line, which take the place of the
/// configured ones.
pub struct Overrides {
    pub filename: Option<String>,
    pub delta_format: Option<String>,
    pub table_style: Option<String>,
    pub table_inner_borders: Option<String>,
    pub locale: Option<String>,
}

/// The value that stands: the given one, else the configured one.
pub open spec fn overridden(given: Option<String>, configured: String) -> Seq<char> {
    match given {
        Some(g) => g@,
        None => configured@,
    }
}

/// Puts the settings given on the command line in place of the configured
/// ones.
pub fn apply_overrides(config: &mut Config, overrides: Overrides)
    ensures
        final(config).data_filename@ == overridden(overrides.filename, old(config).data_filename),
        final(config).delta_format@ == overridden(overrides.delta_format, old(config).delta_format),
        final(config).table_style@ == overridden(overrides.table_style, old(config).table_style),
        final(config).table_inner_borders@ == overridden(
            overrides.table_inner_borders,
            old(config).table_inner_borders,
        ),
        final(config).locale@ == overridden(overrides.locale, old(config).locale),
        final(config).output@ == old(config).output@,
        final(config).editor@ == old(config).editor@,
        final(config).editor_format@ == old(config).editor_format@,
        final(config).auto_tag_rules@ == old(config).auto_tag_rules@,
{
    if let Some(f) = overrides.filename {
        config.data_filename = f;
    }
    if let Some(f) = overrides.delta_format {
        config.delta_format = f;
    }
    if let Some(f) = overrides.table_style {
        config.table_style = f;
    }
    if let Some(f) = overrides.table_inner_borders {
        config.table_inner_borders = f;
    }
    if let Some(f) = overrides.locale {
        config.locale = f;
    }
}

/// The output format and options that the settings name, or the first
/// setting that names none: the output format (unless given), the
/// duration format, the table style, the inner borders, the locale.
pub open spec fn settings_outcome(config: Config, output: Option<OutputFormat>) -> Option<
    (OutputFormat, OutputOptions),
> {
    let out = match output {
        Some(o) => Some(o),
        None => output_format_named(config.output@),
    };
    match (
        out,
        delta_format_named(config.delta_format@),
        table_style_named(config.table_style@),
        inner_borders_named(config.table_inner_borders@),
        locale_named(config.locale@),
    ) {
        (Some(o), Some(d), Some(t), Some(b), Some(l)) => Some(
            (o, OutputOptions { delta_format: d, table_style: t, table_inner_borders: b, locale: l }),
        ),
        _ => None,
    }
}

/// Reads the output format (unless given) and the output options from the
/// settings.
pub fn output_settings(config: &Config, output: Option<OutputFormat>) -> (r: Result<
    (OutputFormat, OutputOptions),
    SiganError,
>)
    ensures
        match r {
            Ok(v) => settings_outcome(*config, output) == Some(v),
            Err(e) => settings_outcome(*config, output) is None,
        },
{
    let out = match output {
        Some(o) => o,
        None => OutputFormat::parse(config.output.as_str())?,
    };
    let delta_format = DeltaFormat::parse(config.delta_format.as_str())?;
    let table_style = TableStyle::parse(config.table_style.as_str())?;
    let table_inner_borders = TableInnerBorders::parse(config.table_inner_borders.as_str())?;
    let locale = Locale::parse(config.locale.as_str())?;
    Ok((out, OutputOptions { delta_format, table_style, table_inner_borders, locale }))
}

/// Writes `entries` to another store, in order of start, and gives their
/// number.
pub fn export_entries<R: TimeEntryRepository>(target: &mut R, entries: &Vec<TimeEntry>) -> (r:
    Result<usize, SiganError>)
    ensures
        final(target).reliable() == old(target).reliable(),
        old(target).reliable() ==> r is Ok,
        r matches Ok(n) ==> n == entries@.len() && final(target).stored() == sort_by_start(
            views(entries@),
        ),
{
    target.save_all(entries.as_slice())?;
    Ok(entries.len())
}

} // verus!
