//! Entry files: the format a file name asks for.

use vstd::prelude::*;

use crate::error::SiganError;
use crate::string_set::str_equal;
use vstd::string::StringExecFns;

verus! {

/// The formats an entry file can have.
#[derive(Debug, Clone, Copy, PartialEq, Eq, Structural)]
pub enum StorageFormat {
    Toml,
    Yaml,
    Json,
}

/// The storage format an extension names.
pub open spec fn storage_format_named(ext: Seq<char>) -> Option<StorageFormat> {
    if ext == "toml"@ {
        Some(StorageFormat::Toml)
    } else if ext == "yaml"@ || ext == "yml"@ {
        Some(StorageFormat::Yaml)
    } else if ext == "json"@ {
        Some(StorageFormat::Json)
    } else {
        None
    }
}

/// What the extension of a path is known to be: text without a `.` or a
/// `/`.
pub open spec fn extension_of(ext: Seq<char>) -> bool {
    !ext.contains('.') && !ext.contains('/')
}

/// What `std::path::Path::extension` gives for `path`, as text: the part
/// of the file name after its last `.`; `None` when the path has no file
/// name, the file name holds no `.`, or it begins with its only `.`.
pub uninterp spec fn extension_text(path: Seq<char>) -> Option<Seq<char>>;

/// The extension of the file name of `path`.
///
/// Trusted: calls `std::path::Path::extension` and turns the result into
/// text. The contract names the result, a function of the path alone, and
/// adds what the documentation of `extension` plainly gives: no extension
/// when the path holds no `.`, and an extension that is the part of the
/// file name after its last `.`, so that it holds neither a `.` nor a path
/// separator.
#[verifier::external_body]
fn path_extension(path: &str) -> (r: Option<String>)
    ensures
        match r {
            Some(e) => extension_text(path@) == Some(e@),
            None => extension_text(path@) is None,
        },
        !path@.contains('.') ==> r is None,
        r matches Some(e) ==> extension_of(e@),
{
    match std::path::Path::new(path).extension() {
        Some(e) => Some(e.to_string_lossy().into_owned()),
        None => None,
    }
}

/// The storage format a path asks for, or the refusal: no extension, or
/// one that names no format.
pub open spec fn format_of_path(path: Seq<char>) -> Result<StorageFormat, Option<Seq<char>>> {
    match extension_text(path) {
        None => Err(None),
        Some(e) => match storage_format_named(e) {
            Some(f) => Ok(f),
            None => Err(Some(e)),
        },
    }
}

/// The refusal `from_path` gives for an outcome of `format_of_path`.
pub open spec fn refusal_matches(e: SiganError, refusal: Option<Seq<char>>) -> bool {
    match refusal {
        None => e == SiganError::MissingExtension,
        Some(x) => e matches SiganError::UnsupportedStorageFormat(y) && y@ == x,
    }
}

impl StorageFormat {
    /// The format an extension names; refused with the extension when it
    /// names none, and when there is no extension.
    pub fn from_extension(ext: Option<&str>) -> (r: Result<StorageFormat, SiganError>)
        ensures
            match ext {
                None => r == Err::<StorageFormat, SiganError>(SiganError::MissingExtension),
                Some(e) => match storage_format_named(e@) {
                    Some(f) => r == Ok::<StorageFormat, SiganError>(f),
                    None => r matches Err(SiganError::UnsupportedStorageFormat(x)) && x@ == e@,
                },
            },
    {
        match ext {
            None => Err(SiganError::MissingExtension),
            Some(e) => {
                if str_equal(e, "toml") {
                    Ok(StorageFormat::Toml)
                } else if str_equal(e, "yaml") || str_equal(e, "yml") {
                    Ok(StorageFormat::Yaml)
                } else if str_equal(e, "json") {
                    Ok(StorageFormat::Json)
                } else {
                    Err(SiganError::UnsupportedStorageFormat(String::from_str(e)))
                }
            },
        }
    }

    /// The format that the extension of `path` names, as `from_extension`
    /// says.
    pub fn from_path(path: &str) -> (r: Result<StorageFormat, SiganError>)
        ensures
            match (r, format_of_path(path@)) {
                (Ok(f), Ok(g)) => f == g,
                (Err(e), Err(refusal)) => refusal_matches(e, refusal),
                _ => false,
            },
            !path@.contains('.') ==> r == Err::<StorageFormat, SiganError>(
                SiganError::MissingExtension,
            ),
            r matches Err(SiganError::UnsupportedStorageFormat(x)) ==> extension_of(x@),
    {
        match path_extension(path) {
            Some(e) => StorageFormat::from_extension(Some(e.as_str())),
            None => StorageFormat::from_extension(None),
        }
    }
}

/// An entry file: its path and the format its extension names. Reading
/// and writing the file is left to the program.
#[derive(Debug)]
pub struct FileRepository {
    path: String,
    format: StorageFormat,
}

impl FileRepository {
    /// The path of the file.
    pub closed spec fn path_spec(&self) -> Seq<char> {
        self.path@
    }

    /// The format of the file.
    pub closed spec fn format_spec(&self) -> StorageFormat {
        self.format
    }

    /// The entry file at `path`, in the format its extension names;
    /// refused as `StorageFormat::from_path` says.
    pub fn new(path: &str) -> (r: Result<FileRepository, SiganError>)
        ensures
            match (r, format_of_path(path@)) {
                (Ok(repo), Ok(g)) => repo.path_spec() == path@ && repo.format_spec() == g,
                (Err(e), Err(refusal)) => refusal_matches(e, refusal),
                _ => false,
            },
    {
        match StorageFormat::from_path(path) {
            Ok(format) => Ok(FileRepository { path: String::from_str(path), format }),
            Err(e) => Err(e),
        }
    }

    /// The path of the file.
    pub fn path(&self) -> (r: &str)
        ensures
            r@ == self.path_spec(),
    {
        self.path.as_str()
    }

    /// The format of the file.
    pub fn format(&self) -> (r: StorageFormat)
        ensures
            r == self.format_spec(),
    {
        self.format
    }
}

} // verus!
