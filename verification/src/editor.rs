//! The editor an entry is changed in, and the format it is shown in.

use vstd::prelude::*;

use crate::error::SiganError;
use crate::string_set::str_equal;
use crate::text::{ascii_lowercase, to_ascii_lowercase};

verus! {

/// The text format an entry is edited in.
#[derive(Debug, Clone, Copy, PartialEq, Eq, Structural)]
pub enum EditFormat {
    Yaml,
    Toml,
}

/// The edit format a name stands for, case aside (`yaml`, `yml`, `toml`).
pub open spec fn edit_format_named(lower: Seq<char>) -> Option<EditFormat> {
    if lower == "yaml"@ || lower == "yml"@ {
        Some(EditFormat::Yaml)
    } else if lower == "toml"@ {
        Some(EditFormat::Toml)
    } else {
        None
    }
}

impl EditFormat {
    /// Reads the name of an edit format, in any case. Refused, with the
    /// lower-cased name, when it names none.
    pub fn parse(value: &str) -> (r: Result<EditFormat, SiganError>)
        ensures
            match r {
                Ok(f) => edit_format_named(ascii_lowercase(value@)) == Some(f),
                Err(e) => edit_format_named(ascii_lowercase(value@)) is None && (e matches SiganError::UnsupportedEditorFormat(v) && v@ == ascii_lowercase(value@)),
            },
    {
        let lower = to_ascii_lowercase(value);
        if str_equal(lower.as_str(), "yaml") || str_equal(lower.as_str(), "yml") {
            Ok(EditFormat::Yaml)
        } else if str_equal(lower.as_str(), "toml") {
            Ok(EditFormat::Toml)
        } else {
            Err(SiganError::UnsupportedEditorFormat(lower))
        }
    }

    /// The file name suffix of a temporary file in this format.
    pub fn suffix(self) -> (r: &'static str)
        ensures
            self == EditFormat::Yaml ==> r@ == ".yaml"@,
            self == EditFormat::Toml ==> r@ == ".toml"@,
    {
        match self {
            EditFormat::Yaml => ".yaml",
            EditFormat::Toml => ".toml",
        }
    }
}

/// An editor run as a shell command on a temporary file that holds the
/// entry in the given format.
#[derive(Debug, Clone)]
pub struct ShellEditor {
    command: String,
    format: EditFormat,
}

impl ShellEditor {
    /// The command that is run.
    pub closed spec fn command_spec(&self) -> Seq<char> {
        self.command@
    }

    /// The format of the temporary file.
    pub closed spec fn format_spec(&self) -> EditFormat {
        self.format
    }

    /// An editor that runs `command` on a file in `format`.
    pub fn new(command: String, format: EditFormat) -> (r: ShellEditor)
        ensures
            r.command_spec() == command@,
            r.format_spec() == format,
    {
        ShellEditor { command, format }
    }

    /// The command that is run.
    pub fn command(&self) -> (r: &str)
        ensures
            r@ == self.command_spec(),
    {
        self.command.as_str()
    }

    /// The format of the temporary file.
    pub fn format(&self) -> (r: EditFormat)
        ensures
            r == self.format_spec(),
    {
        self.format
    }
}

} // verus!
