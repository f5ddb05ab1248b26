use vstd::prelude::*;
use vstd::string::StringExecFns;

verus! {

/// The ways in which a request to the tracker is refused.
#[derive(Debug, Clone, PartialEq, Eq)]
pub enum SiganError {
    /// The entry store could not be read or written; the text says why.
    Storage(String),
    /// The entry to stop has an end time already.
    AlreadyStopped,
    /// The requested end time lies before the entry's start.
    EndBeforeStart,
    /// No entry has an id that starts with the given text.
    NotFound(String),
    /// More than one entry has an id that starts with the given text.
    MultipleMatches(String),
    /// The editor did not give back an entry; the text says why.
    Editor(String),
    /// A time of day that does not have the form `HH:MM[:SS] [AM|PM]`.
    InvalidTimeFormat,
    /// An hour above 12 together with AM or PM.
    HoursExceed12,
    /// An hour above 23.
    HoursExceed23,
    /// A minute above 59.
    MinutesExceed59,
    /// A second above 59.
    SecondsExceed59,
    /// The local time does not exist, or exists twice, in the local zone.
    InvalidLocalTime,
    /// A date that is not of the form `YYYY-MM-DD`.
    InvalidDate(String),
    /// An auto-tag rule with a match type other than `regex`.
    UnsupportedMatchType(String),
    /// An auto-tag pattern that is not a valid regular expression.
    InvalidPattern(String),
    /// An unknown name of an output format.
    UnsupportedOutputFormat(String),
    /// An unknown name of a duration format.
    UnsupportedDeltaFormat(String),
    /// An unknown name of a table style.
    UnsupportedTableStyle(String),
    /// An unknown name of an inner border style.
    UnsupportedInnerBorders(String),
    /// An unknown locale.
    UnsupportedLocale(String),
    /// An unknown editor format.
    UnsupportedEditorFormat(String),
    /// A storage file name whose extension names no known format.
    UnsupportedStorageFormat(String),
    /// A storage file name without an extension.
    MissingExtension,
}

/// The text the program prints for an error.
pub open spec fn error_text(e: SiganError) -> Seq<char> {
    match e {
        SiganError::Storage(m) => m@,
        SiganError::Editor(m) => m@,
        SiganError::InvalidDate(m) => m@,
        SiganError::AlreadyStopped => "already stopped"@,
        SiganError::EndBeforeStart => "end time is before start time"@,
        SiganError::InvalidTimeFormat => "Invalid time format. Use HH:MM or HH:MM:SS with optional AM/PM"@,
        SiganError::HoursExceed12 => "Hours cannot exceed 12 in 12-hour format"@,
        SiganError::HoursExceed23 => "Hours cannot exceed 23"@,
        SiganError::MinutesExceed59 => "Minutes cannot exceed 59"@,
        SiganError::SecondsExceed59 => "Seconds cannot exceed 59"@,
        SiganError::InvalidLocalTime => "Invalid local time"@,
        SiganError::MissingExtension => "storage filename must have an extension"@,
        SiganError::NotFound(m) => "No entry found with id "@ + m@,
        SiganError::MultipleMatches(m) => "Multiple records found starting with id "@ + m@,
        SiganError::UnsupportedMatchType(m) => "unsupported auto tag match_type: "@ + m@,
        SiganError::InvalidPattern(m) => "compiling auto tag pattern "@ + m@,
        SiganError::UnsupportedOutputFormat(m) => "unsupported output format: "@ + m@,
        SiganError::UnsupportedDeltaFormat(m) => "unsupported delta format: "@ + m@,
        SiganError::UnsupportedTableStyle(m) => "unsupported table style: "@ + m@,
        SiganError::UnsupportedInnerBorders(m) => "unsupported table inner border style: "@ + m@,
        SiganError::UnsupportedLocale(m) => "unsupported locale: "@ + m@,
        SiganError::UnsupportedEditorFormat(m) => "unsupported editor format: "@ + m@,
        SiganError::UnsupportedStorageFormat(m) => "unsupported storage format: "@ + m@,
    }
}

impl SiganError {
    /// The text the program prints for the error.
    pub fn message(&self) -> (r: String)
        ensures
            r@ == error_text(*self),
    {
        match self {
            SiganError::Storage(m) => m.clone(),
            SiganError::Editor(m) => m.clone(),
            SiganError::InvalidDate(m) => m.clone(),
            SiganError::AlreadyStopped => String::from_str("already stopped"),
            SiganError::EndBeforeStart => String::from_str("end time is before start time"),
            SiganError::InvalidTimeFormat => String::from_str("Invalid time format. Use HH:MM or HH:MM:SS with optional AM/PM"),
            SiganError::HoursExceed12 => String::from_str("Hours cannot exceed 12 in 12-hour format"),
            SiganError::HoursExceed23 => String::from_str("Hours cannot exceed 23"),
            SiganError::MinutesExceed59 => String::from_str("Minutes cannot exceed 59"),
            SiganError::SecondsExceed59 => String::from_str("Seconds cannot exceed 59"),
            SiganError::InvalidLocalTime => String::from_str("Invalid local time"),
            SiganError::MissingExtension => String::from_str("storage filename must have an extension"),
            SiganError::NotFound(m) => {
                let mut r = String::from_str("No entry found with id ");
                r.append(m.as_str());
                r
            },
            SiganError::MultipleMatches(m) => {
                let mut r = String::from_str("Multiple records found starting with id ");
                r.append(m.as_str());
                r
            },
            SiganError::UnsupportedMatchType(m) => {
                let mut r = String::from_str("unsupported auto tag match_type: ");
                r.append(m.as_str());
                r
            },
            SiganError::InvalidPattern(m) => {
                let mut r = String::from_str("compiling auto tag pattern ");
                r.append(m.as_str());
                r
            },
            SiganError::UnsupportedOutputFormat(m) => {
                let mut r = String::from_str("unsupported output format: ");
                r.append(m.as_str());
                r
            },
            SiganError::UnsupportedDeltaFormat(m) => {
                let mut r = String::from_str("unsupported delta format: ");
                r.append(m.as_str());
                r
            },
            SiganError::UnsupportedTableStyle(m) => {
                let mut r = String::from_str("unsupported table style: ");
                r.append(m.as_str());
                r
            },
            SiganError::UnsupportedInnerBorders(m) => {
                let mut r = String::from_str("unsupported table inner border style: ");
                r.append(m.as_str());
                r
            },
            SiganError::UnsupportedLocale(m) => {
                let mut r = String::from_str("unsupported locale: ");
                r.append(m.as_str());
                r
            },
            SiganError::UnsupportedEditorFormat(m) => {
                let mut r = String::from_str("unsupported editor format: ");
                r.append(m.as_str());
                r
            },
            SiganError::UnsupportedStorageFormat(m) => {
                let mut r = String::from_str("unsupported storage format: ");
                r.append(m.as_str());
                r
            },
        }
    }
}

} // verus!
