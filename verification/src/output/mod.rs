//! The output options, and the rules by which entries are laid out.

pub mod cells;
pub mod duration;
pub mod layout;
pub mod list;
pub mod records;
pub mod table;

use vstd::prelude::*;

use crate::error::SiganError;
use crate::string_set::str_equal;

verus! {

/// How results are printed.
#[derive(Debug, Clone, Copy, PartialEq, Eq, Structural)]
pub enum OutputFormat {
    Ansi,
    Text,
    Json,
    Yaml,
    Csv,
    Markdown,
}

/// How durations are written.
#[derive(Debug, Clone, Copy, PartialEq, Eq, Structural)]
pub enum DeltaFormat {
    DecimalHours,
    Human,
}

/// The border style of ANSI tables.
#[derive(Debug, Clone, Copy, PartialEq, Eq, Structural)]
pub enum TableStyle {
    Utf8,
    Utf8Condensed,
    Utf8BordersOnly,
    Utf8HorizontalOnly,
    Utf8NoBorders,
    Ascii,
    AsciiCondensed,
    AsciiBordersOnly,
    AsciiBordersOnlyCondensed,
    AsciiHorizontalOnly,
    Plain,
}

/// The style of the lines between rows.
#[derive(Debug, Clone, Copy, PartialEq, Eq, Structural)]
pub enum TableInnerBorders {
    Dotted,
    Solid,
}

/// The language of labels.
#[derive(Debug, Clone, Copy, PartialEq, Eq, Structural)]
pub enum Locale {
    English,
    Korean,
}

/// Everything that shapes printed output besides its format.
#[derive(Debug, Clone, Copy, PartialEq, Eq, Structural)]
pub struct OutputOptions {
    pub delta_format: DeltaFormat,
    pub table_style: TableStyle,
    pub table_inner_borders: TableInnerBorders,
    pub locale: Locale,
}

/// The duration format a name stands for.
pub open spec fn delta_format_named(s: Seq<char>) -> Option<DeltaFormat> {
    if s == "decimal"@ || s == "decimal-hours"@ || s == "tenths"@ || s == "tenths-of-hour"@ || s
        == "hours"@ {
        Some(DeltaFormat::DecimalHours)
    } else if s == "human"@ || s == "clock"@ || s == "hours-minutes"@ {
        Some(DeltaFormat::Human)
    } else {
        None
    }
}

/// The table style a name stands for.
pub open spec fn table_style_named(s: Seq<char>) -> Option<TableStyle> {
    if s == "utf8"@ || s == "unicode"@ || s == "full"@ {
        Some(TableStyle::Utf8)
    } else if s == "utf8-condensed"@ || s == "unicode-condensed"@ || s == "condensed"@ {
        Some(TableStyle::Utf8Condensed)
    } else if s == "utf8-borders-only"@ || s == "unicode-borders-only"@ || s == "borders-only"@ {
        Some(TableStyle::Utf8BordersOnly)
    } else if s == "utf8-horizontal-only"@ || s == "unicode-horizontal-only"@ || s
        == "horizontal-only"@ {
        Some(TableStyle::Utf8HorizontalOnly)
    } else if s == "utf8-no-borders"@ || s == "unicode-no-borders"@ || s == "no-borders"@ {
        Some(TableStyle::Utf8NoBorders)
    } else if s == "ascii"@ || s == "ascii-full"@ {
        Some(TableStyle::Ascii)
    } else if s == "ascii-condensed"@ {
        Some(TableStyle::AsciiCondensed)
    } else if s == "ascii-borders-only"@ {
        Some(TableStyle::AsciiBordersOnly)
    } else if s == "ascii-borders-only-condensed"@ {
        Some(TableStyle::AsciiBordersOnlyCondensed)
    } else if s == "ascii-horizontal-only"@ {
        Some(TableStyle::AsciiHorizontalOnly)
    } else if s == "none"@ || s == "plain"@ {
        Some(TableStyle::Plain)
    } else {
        None
    }
}

/// The inner border style a name stands for.
pub open spec fn inner_borders_named(s: Seq<char>) -> Option<TableInnerBorders> {
    if s == "dotted"@ || s == "dashed"@ || s == "default"@ {
        Some(TableInnerBorders::Dotted)
    } else if s == "solid"@ {
        Some(TableInnerBorders::Solid)
    } else {
        None
    }
}

/// The locale a name stands for.
pub open spec fn locale_named(s: Seq<char>) -> Option<Locale> {
    if s == "en"@ || s == "en_US"@ || s == "en_GB"@ {
        Some(Locale::English)
    } else if s == "ko"@ || s == "ko_KR"@ {
        Some(Locale::Korean)
    } else {
        None
    }
}

/// The output format a name stands for.
pub open spec fn output_format_named(s: Seq<char>) -> Option<OutputFormat> {
    if s == "ansi"@ || s == "rich"@ {
        Some(OutputFormat::Ansi)
    } else if s == "text"@ {
        Some(OutputFormat::Text)
    } else if s == "json"@ {
        Some(OutputFormat::Json)
    } else if s == "yaml"@ {
        Some(OutputFormat::Yaml)
    } else if s == "csv"@ {
        Some(OutputFormat::Csv)
    } else if s == "markdown"@ || s == "md"@ {
        Some(OutputFormat::Markdown)
    } else {
        None
    }
}

impl DeltaFormat {
    /// Reads the name of a duration format; refused, with the name, when it
    /// names none.
    pub fn parse(value: &str) -> (r: Result<DeltaFormat, SiganError>)
        ensures
            match r {
                Ok(f) => delta_format_named(value@) == Some(f),
                Err(e) => delta_format_named(value@) is None && (e matches SiganError::UnsupportedDeltaFormat(v) && v@ == value@),
            },
    {
        if str_equal(value, "decimal") || str_equal(value, "decimal-hours") || str_equal(
            value,
            "tenths",
        ) || str_equal(value, "tenths-of-hour") || str_equal(value, "hours") {
            Ok(DeltaFormat::DecimalHours)
        } else if str_equal(value, "human") || str_equal(value, "clock") || str_equal(
            value,
            "hours-minutes",
        ) {
            Ok(DeltaFormat::Human)
        } else {
            Err(SiganError::UnsupportedDeltaFormat(value.to_string()))
        }
    }
}

impl TableStyle {
    /// Reads the name of a table style; refused, with the name, when it
    /// names none.
    pub fn parse(value: &str) -> (r: Result<TableStyle, SiganError>)
        ensures
            match r {
                Ok(f) => table_style_named(value@) == Some(f),
                Err(e) => table_style_named(value@) is None && (e matches SiganError::UnsupportedTableStyle(v) && v@ == value@),
            },
    {
        if str_equal(value, "utf8") || str_equal(value, "unicode") || str_equal(value, "full") {
            Ok(TableStyle::Utf8)
        } else if str_equal(value, "utf8-condensed") || str_equal(value, "unicode-condensed")
            || str_equal(value, "condensed") {
            Ok(TableStyle::Utf8Condensed)
        } else if str_equal(value, "utf8-borders-only") || str_equal(value, "unicode-borders-only")
            || str_equal(value, "borders-only") {
            Ok(TableStyle::Utf8BordersOnly)
        } else if str_equal(value, "utf8-horizontal-only") || str_equal(
            value,
            "unicode-horizontal-only",
        ) || str_equal(value, "horizontal-only") {
            Ok(TableStyle::Utf8HorizontalOnly)
        } else if str_equal(value, "utf8-no-borders") || str_equal(value, "unicode-no-borders")
            || str_equal(value, "no-borders") {
            Ok(TableStyle::Utf8NoBorders)
        } else if str_equal(value, "ascii") || str_equal(value, "ascii-full") {
            Ok(TableStyle::Ascii)
        } else if str_equal(value, "ascii-condensed") {
            Ok(TableStyle::AsciiCondensed)
        } else if str_equal(value, "ascii-borders-only") {
            Ok(TableStyle::AsciiBordersOnly)
        } else if str_equal(value, "ascii-borders-only-condensed") {
            Ok(TableStyle::AsciiBordersOnlyCondensed)
        } else if str_equal(value, "ascii-horizontal-only") {
            Ok(TableStyle::AsciiHorizontalOnly)
        } else if str_equal(value, "none") || str_equal(value, "plain") {
            Ok(TableStyle::Plain)
        } else {
            Err(SiganError::UnsupportedTableStyle(value.to_string()))
        }
    }

    /// The style draws with Unicode box characters.
    pub open spec fn utf8(self) -> bool {
        self is Utf8 || self is Utf8Condensed || self is Utf8BordersOnly || self is Utf8HorizontalOnly
            || self is Utf8NoBorders
    }

    /// The style draws lines only between days, not between all rows.
    pub open spec fn condensed(self) -> bool {
        self is Utf8Condensed || self is AsciiCondensed || self is AsciiBordersOnlyCondensed
    }

    /// Whether the style draws with Unicode box characters.
    pub fn is_utf8(self) -> (r: bool)
        ensures
            r == self.utf8(),
    {
        match self {
            TableStyle::Utf8 | TableStyle::Utf8Condensed | TableStyle::Utf8BordersOnly
            | TableStyle::Utf8HorizontalOnly | TableStyle::Utf8NoBorders => true,
            _ => false,
        }
    }

    /// Whether the style draws lines only between days.
    pub fn is_condensed(self) -> (r: bool)
        ensures
            r == self.condensed(),
    {
        match self {
            TableStyle::Utf8Condensed | TableStyle::AsciiCondensed
            | TableStyle::AsciiBordersOnlyCondensed => true,
            _ => false,
        }
    }
}

impl TableInnerBorders {
    /// Reads the name of an inner border style; refused, with the name, when
    /// it names none.
    pub fn parse(value: &str) -> (r: Result<TableInnerBorders, SiganError>)
        ensures
            match r {
                Ok(f) => inner_borders_named(value@) == Some(f),
                Err(e) => inner_borders_named(value@) is None && (e matches SiganError::UnsupportedInnerBorders(v) && v@ == value@),
            },
    {
        if str_equal(value, "dotted") || str_equal(value, "dashed") || str_equal(value, "default") {
            Ok(TableInnerBorders::Dotted)
        } else if str_equal(value, "solid") {
            Ok(TableInnerBorders::Solid)
        } else {
            Err(SiganError::UnsupportedInnerBorders(value.to_string()))
        }
    }
}

impl Locale {
    /// Reads the name of a locale; refused, with the name, when it names
    /// none.
    pub fn parse(value: &str) -> (r: Result<Locale, SiganError>)
        ensures
            match r {
                Ok(f) => locale_named(value@) == Some(f),
                Err(e) => locale_named(value@) is None && (e matches SiganError::UnsupportedLocale(v) && v@ == value@),
            },
    {
        if str_equal(value, "en") || str_equal(value, "en_US") || str_equal(value, "en_GB") {
            Ok(Locale::English)
        } else if str_equal(value, "ko") || str_equal(value, "ko_KR") {
            Ok(Locale::Korean)
        } else {
            Err(SiganError::UnsupportedLocale(value.to_string()))
        }
    }
}

impl OutputFormat {
    /// Reads the name of an output format; refused, with the name, when it
    /// names none.
    pub fn parse(value: &str) -> (r: Result<OutputFormat, SiganError>)
        ensures
            match r {
                Ok(f) => output_format_named(value@) == Some(f),
                Err(e) => output_format_named(value@) is None && (e matches SiganError::UnsupportedOutputFormat(v) && v@ == value@),
            },
    {
        if str_equal(value, "ansi") || str_equal(value, "rich") {
            Ok(OutputFormat::Ansi)
        } else if str_equal(value, "text") {
            Ok(OutputFormat::Text)
        } else if str_equal(value, "json") {
            Ok(OutputFormat::Json)
        } else if str_equal(value, "yaml") {
            Ok(OutputFormat::Yaml)
        } else if str_equal(value, "csv") {
            Ok(OutputFormat::Csv)
        } else if str_equal(value, "markdown") || str_equal(value, "md") {
            Ok(OutputFormat::Markdown)
        } else {
            Err(SiganError::UnsupportedOutputFormat(value.to_string()))
        }
    }
}

} // verus!
