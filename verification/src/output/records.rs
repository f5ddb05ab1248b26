//! The plain-text forms of an entry: a line of text, a Markdown row, the
//! fields of a CSV record, and the TOML text it is edited in.

use vstd::prelude::*;

use crate::error::SiganError;
use crate::models::{EntryView, TimeEntry};
use crate::text::{chars_of, is_whitespace, push_char, trim_end};
use crate::time::LocalDateTime;
use vstd::string::StringExecFns;

verus! {

/// What `chrono` writes when it displays the time `secs`, `nanos` as a
/// `DateTime` at the fixed offset `offset`: the local date and time, a
/// space, the offset (`2026-05-03 10:00:00 +09:00`); `None` when `chrono`
/// cannot hold that time.
pub uninterp spec fn shown_time(secs: int, nanos: int, offset: int) -> Option<Seq<char>>;

/// Displays a time.
///
/// Trusted: builds a `chrono::DateTime` with `DateTime::from_timestamp`
/// and `FixedOffset::east_opt`, and writes it with its `Display`. The
/// contract names the result, a function of the three parts alone.
#[verifier::external_body]
fn show_time(secs: i64, nanos: u32, offset: i32) -> (r: Option<String>)
    ensures
        match r {
            Some(x) => shown_time(secs as int, nanos as int, offset as int) == Some(x@),
            None => shown_time(secs as int, nanos as int, offset as int) is None,
        },
{
    let zone = chrono::FixedOffset::east_opt(offset)?;
    let time = chrono::DateTime::from_timestamp(secs, nanos)?;
    Some(time.with_timezone(&zone).to_string())
}

/// What `chrono`'s `to_rfc3339` writes for the time `secs`, `nanos` at the
/// fixed offset `offset` (`2026-05-03T10:00:00+09:00`); `None` when
/// `chrono` cannot hold that time.
pub uninterp spec fn rfc3339_text(secs: int, nanos: int, offset: int) -> Option<Seq<char>>;

/// Writes a time as RFC 3339.
///
/// Trusted: builds a `chrono::DateTime` as `show_time` does and calls
/// `to_rfc3339`. The contract names the result.
#[verifier::external_body]
fn rfc3339_of(secs: i64, nanos: u32, offset: i32) -> (r: Option<String>)
    ensures
        match r {
            Some(x) => rfc3339_text(secs as int, nanos as int, offset as int) == Some(x@),
            None => rfc3339_text(secs as int, nanos as int, offset as int) is None,
        },
{
    let zone = chrono::FixedOffset::east_opt(offset)?;
    let time = chrono::DateTime::from_timestamp(secs, nanos)?;
    Some(time.with_timezone(&zone).to_rfc3339())
}

/// What the standard library's `Debug` writes for a string: the text in
/// double quotes, with quotes, backslashes and unprintable characters
/// escaped.
pub uninterp spec fn debug_text(s: Seq<char>) -> Seq<char>;

/// Writes a string as `Debug` does.
///
/// Trusted: `format!("{:?}", s)`. The contract names the result.
#[verifier::external_body]
fn debug_quoted(s: &str) -> (r: String)
    ensures
        r@ == debug_text(s@),
{
    format!("{:?}", s)
}

/// A time as the text forms show it; empty when `chrono` cannot hold it.
pub open spec fn time_text(t: LocalDateTime) -> Seq<char> {
    match shown_time(t.timestamp(), t.nanosecond(), t.offset_secs()) {
        Some(x) => x,
        None => Seq::empty(),
    }
}

/// A time in RFC 3339; empty when `chrono` cannot hold it.
pub open spec fn time_rfc3339(t: LocalDateTime) -> Seq<char> {
    match rfc3339_text(t.timestamp(), t.nanosecond(), t.offset_secs()) {
        Some(x) => x,
        None => Seq::empty(),
    }
}

/// The items with `sep` between each two of them.
pub open spec fn join(items: Seq<Seq<char>>, sep: Seq<char>) -> Seq<char>
    decreases items.len(),
{
    if items.len() == 0 {
        Seq::empty()
    } else if items.len() == 1 {
        items[0]
    } else {
        join(items.drop_last(), sep) + sep + items.last()
    }
}

/// A set of strings as `Debug` writes a `BTreeSet<String>`:
/// `{"a", "b"}`.
pub open spec fn debug_set(items: Seq<Seq<char>>) -> Seq<char> {
    "{"@ + join(items.map_values(|s: Seq<char>| debug_text(s)), ", "@) + "}"@
}

/// The end time as the text line shows it: `None` while the entry runs.
pub open spec fn end_text(end: Option<LocalDateTime>, none: Seq<char>) -> Seq<char> {
    match end {
        Some(t) => time_text(t),
        None => none,
    }
}

/// An entry as one line of text: id, start, end, project, comment and the
/// set of tags, separated by spaces.
pub open spec fn entry_text(e: EntryView) -> Seq<char> {
    e.id + " "@ + time_text(e.start_time) + " "@ + end_text(e.end_time, "None"@) + " "@
        + e.project + " "@ + e.comment + " "@ + debug_set(e.tags)
}

/// An entry as a row of a Markdown table.
pub open spec fn markdown_row(e: EntryView) -> Seq<char> {
    "| "@ + e.id + " | "@ + time_text(e.start_time) + " | "@ + end_text(e.end_time, Seq::empty())
        + " | "@ + e.project + " | "@ + e.comment + " | "@ + join(e.tags, ", "@) + " |"@
}

/// The fields of an entry's CSV record.
pub open spec fn csv_record(e: EntryView) -> Seq<Seq<char>> {
    seq![
        e.id,
        time_text(e.start_time),
        end_text(e.end_time, Seq::empty()),
        e.project,
        e.comment,
        join(e.tags, ","@),
    ]
}

/// Joins strings with `sep` between each two of them.
pub fn join_strings(items: &Vec<String>, sep: &str) -> (r: String)
    ensures
        r@ == join(items@.map_values(|s: String| s@), sep@),
{
    let ghost views = items@.map_values(|s: String| s@);
    let mut r = String::new();
    let mut i: usize = 0;
    while i < items.len()
        invariant
            i <= items@.len(),
            views == items@.map_values(|s: String| s@),
            r@ == join(views.take(i as int), sep@),
        decreases items@.len() - i,
    {
        assert(views.take(i + 1).drop_last() =~= views.take(i as int));
        if i > 0 {
            r.append(sep);
        } else {
            assert(views.take(0) =~= Seq::<Seq<char>>::empty());
        }
        r.append(items[i].as_str());
        i = i + 1;
    }
    assert(views.take(i as int) =~= views);
    r
}

/// A time as the text forms show it.
pub fn time_shown(t: &LocalDateTime) -> (r: String)
    ensures
        r@ == time_text(*t),
{
    let (secs, nanos, offset) = t.parts();
    match show_time(secs, nanos, offset) {
        Some(x) => x,
        None => String::new(),
    }
}

/// A time in RFC 3339.
pub fn time_in_rfc3339(t: &LocalDateTime) -> (r: String)
    ensures
        r@ == time_rfc3339(*t),
{
    let (secs, nanos, offset) = t.parts();
    match rfc3339_of(secs, nanos, offset) {
        Some(x) => x,
        None => String::new(),
    }
}

fn end_shown(end: &Option<LocalDateTime>, none: &str) -> (r: String)
    ensures
        r@ == end_text(*end, none@),
{
    match end {
        Some(t) => time_shown(t),
        None => String::from_str(none),
    }
}

/// The tags of an entry as `Debug` writes a set.
fn tags_debug(entry: &TimeEntry) -> (r: String)
    ensures
        r@ == debug_set(entry@.tags),
{
    let items = entry.tags.to_vec();
    let mut quoted: Vec<String> = Vec::new();
    let mut i: usize = 0;
    while i < items.len()
        invariant
            i <= items@.len(),
            items@.map_values(|s: String| s@) == entry@.tags,
            quoted@.map_values(|s: String| s@) =~= entry@.tags.take(i as int).map_values(
                |s: Seq<char>| debug_text(s),
            ),
        decreases items@.len() - i,
    {
        assert(entry@.tags[i as int] == items@[i as int]@);
        let ghost before = quoted@;
        let q = debug_quoted(items[i].as_str());
        quoted.push(q);
        assert(quoted@.map_values(|s: String| s@) =~= before.map_values(|s: String| s@).push(q@));
        assert(entry@.tags.take(i + 1).map_values(|s: Seq<char>| debug_text(s)) =~= entry@.tags.take(
            i as int,
        ).map_values(|s: Seq<char>| debug_text(s)).push(debug_text(entry@.tags[i as int])));
        i = i + 1;
    }
    assert(entry@.tags.take(i as int) =~= entry@.tags);
    let mut r = String::from_str("{");
    r.append(join_strings(&quoted, ", ").as_str());
    r.append("}");
    r
}

/// The tags of an entry joined with `sep`.
fn tags_joined(entry: &TimeEntry, sep: &str) -> (r: String)
    ensures
        r@ == join(entry@.tags, sep@),
{
    join_strings(&entry.tags.to_vec(), sep)
}

/// An entry as one line of text.
pub fn entry_to_text(entry: &TimeEntry) -> (r: String)
    ensures
        r@ == entry_text(entry@),
{
    let mut r = String::from_str(entry.id.as_str());
    r.append(" ");
    r.append(time_shown(&entry.start_time).as_str());
    r.append(" ");
    r.append(end_shown(&entry.end_time, "None").as_str());
    r.append(" ");
    r.append(entry.project.as_str());
    r.append(" ");
    r.append(entry.comment.as_str());
    r.append(" ");
    r.append(tags_debug(entry).as_str());
    r
}

/// An entry as a row of a Markdown table.
pub fn entry_to_markdown_row(entry: &TimeEntry) -> (r: String)
    ensures
        r@ == markdown_row(entry@),
{
    let mut r = String::from_str("| ");
    r.append(entry.id.as_str());
    r.append(" | ");
    r.append(time_shown(&entry.start_time).as_str());
    r.append(" | ");
    proof {
        reveal_strlit("");
    }
    r.append(end_shown(&entry.end_time, "").as_str());
    r.append(" | ");
    r.append(entry.project.as_str());
    r.append(" | ");
    r.append(entry.comment.as_str());
    r.append(" | ");
    r.append(tags_joined(entry, ", ").as_str());
    r.append(" |");
    r
}

/// The fields of an entry's CSV record, in the order of the header.
pub fn csv_fields(entry: &TimeEntry) -> (r: Vec<String>)
    ensures
        r@.map_values(|s: String| s@) == csv_record(entry@),
{
    let mut r: Vec<String> = Vec::new();
    r.push(String::from_str(entry.id.as_str()));
    r.push(time_shown(&entry.start_time));
    proof {
        reveal_strlit("");
    }
    r.push(end_shown(&entry.end_time, ""));
    r.push(String::from_str(entry.project.as_str()));
    r.push(String::from_str(entry.comment.as_str()));
    r.push(tags_joined(entry, ","));
    assert(""@ =~= Seq::<char>::empty());
    assert(r@.len() == 6);
    assert(r@[1]@ == time_text(entry@.start_time));
    assert(r@[2]@ == end_text(entry@.end_time, Seq::empty()));
    assert(r@[5]@ == join(entry@.tags, ","@));
    assert(r@[0]@ == entry@.id);
    assert(r@[3]@ == entry@.project);
    assert(r@[4]@ == entry@.comment);
    assert(r@.map_values(|s: String| s@) =~= csv_record(entry@));
    r
}


/// What `toml::to_string_pretty` writes for a table that holds one string,
/// `value`, under the key `value`; `None` when it refuses.
pub uninterp spec fn toml_string_document(value: Seq<char>) -> Option<Seq<char>>;

/// Writes a TOML document with the one string `value` under the key
/// `value`.
///
/// Trusted: builds a `toml::Table` with that entry and calls
/// `toml::to_string_pretty`. The contract names the result.
#[verifier::external_body]
fn toml_string_doc(value: &str) -> (r: Option<String>)
    ensures
        match r {
            Some(x) => toml_string_document(value@) == Some(x@),
            None => toml_string_document(value@) is None,
        },
{
    let mut table = toml::Table::new();
    table.insert(String::from("value"), toml::Value::String(value.to_string()));
    toml::to_string_pretty(&toml::Value::Table(table)).ok()
}

/// What `toml::to_string_pretty` writes for a table that holds one array
/// of the strings `values`, under the key `value`; `None` when it refuses.
pub uninterp spec fn toml_array_document(values: Seq<Seq<char>>) -> Option<Seq<char>>;

/// Writes a TOML document with the array of strings `values` under the key
/// `value`.
///
/// Trusted: builds a `toml::Table` with that entry and calls
/// `toml::to_string_pretty`. The contract names the result.
#[verifier::external_body]
fn toml_array_doc(values: &Vec<String>) -> (r: Option<String>)
    ensures
        match r {
            Some(x) => toml_array_document(values@.map_values(|s: String| s@)) == Some(x@),
            None => toml_array_document(values@.map_values(|s: String| s@)) is None,
        },
{
    let items = values.iter().cloned().map(toml::Value::String).collect();
    let mut table = toml::Table::new();
    table.insert(String::from("value"), toml::Value::Array(items));
    toml::to_string_pretty(&toml::Value::Table(table)).ok()
}

/// ` = ` begins at `i` in `t`.
pub open spec fn assignment_at(t: Seq<char>, i: int) -> bool {
    0 <= i && i + 3 <= t.len() && t[i] == ' ' && t[i + 1] == '=' && t[i + 2] == ' '
}

/// The first place from `i` on where ` = ` begins in `t`.
pub open spec fn first_assignment(t: Seq<char>, i: int) -> Option<int>
    decreases t.len() - i,
{
    if i < 0 || i + 3 > t.len() {
        None
    } else if assignment_at(t, i) {
        Some(i)
    } else {
        first_assignment(t, i + 1)
    }
}

/// The value a one-line TOML document assigns: what follows the first
/// ` = ` once trailing white space is gone; `None` without one.
pub open spec fn assigned_value(doc: Seq<char>) -> Option<Seq<char>> {
    let t = trim_end(doc);
    match first_assignment(t, 0) {
        Some(i) => Some(t.skip(i + 3)),
        None => None,
    }
}

/// Why the TOML text of an entry could not be written.
#[derive(Debug, Clone, Copy, PartialEq, Eq, Structural)]
pub enum TomlFailure {
    /// `toml` refused to write a value.
    Serialize,
    /// What `toml` wrote held no assignment.
    NoAssignment,
}

/// The message of a failure, as the editor reports it.
pub open spec fn toml_failure_text(f: TomlFailure) -> Seq<char> {
    match f {
        TomlFailure::Serialize => "serializing entry for TOML editing"@,
        TomlFailure::NoAssignment => "serialized TOML value did not contain assignment"@,
    }
}

/// The value text of a field, from the document `toml` wrote for it.
pub open spec fn field_value(doc: Option<Seq<char>>) -> Result<Seq<char>, TomlFailure> {
    match doc {
        None => Err(TomlFailure::Serialize),
        Some(d) => match assigned_value(d) {
            Some(v) => Ok(v),
            None => Err(TomlFailure::NoAssignment),
        },
    }
}

/// The text so far followed by the line `<name> = <value>`, or the first
/// failure.
pub open spec fn then_line(
    so_far: Result<Seq<char>, TomlFailure>,
    name: Seq<char>,
    value: Result<Seq<char>, TomlFailure>,
) -> Result<Seq<char>, TomlFailure> {
    match so_far {
        Err(f) => Err(f),
        Ok(text) => match value {
            Err(f) => Err(f),
            Ok(v) => Ok(text + name + " = "@ + v + "\n"@),
        },
    }
}

/// The TOML text an entry is edited in: one line per field, in the order
/// id, start time, end time (`"null"` while it runs), project, comment,
/// tags, with the values as `toml` writes them.
pub open spec fn toml_entry_text(e: EntryView) -> Result<Seq<char>, TomlFailure> {
    let end = match e.end_time {
        Some(t) => time_rfc3339(t),
        None => "null"@,
    };
    let a = then_line(Ok(Seq::empty()), "id"@, field_value(toml_string_document(e.id)));
    let b = then_line(a, "start_time"@, field_value(toml_string_document(time_rfc3339(e.start_time))));
    let c = then_line(b, "end_time"@, field_value(toml_string_document(end)));
    let d = then_line(c, "project"@, field_value(toml_string_document(e.project)));
    let f = then_line(d, "comment"@, field_value(toml_string_document(e.comment)));
    then_line(f, "tags"@, field_value(toml_array_document(e.tags)))
}

/// The value that a one-line TOML document assigns.
fn value_of_document(doc: &str) -> (r: Option<String>)
    ensures
        match r {
            Some(x) => assigned_value(doc@) == Some(x@),
            None => assigned_value(doc@) is None,
        },
{
    let v = chars_of(doc);
    let mut b: usize = v.len();
    assert(v@.subrange(0, b as int) =~= v@);
    while b > 0 && is_whitespace(v[b - 1])
        invariant
            v@ == doc@,
            b <= v@.len(),
            trim_end(doc@) == trim_end(v@.subrange(0, b as int)),
        decreases b,
    {
        assert(v@.subrange(0, b as int).drop_last() =~= v@.subrange(0, b - 1));
        b = b - 1;
    }
    let ghost t = v@.subrange(0, b as int);
    assert(trim_end(doc@) == t);
    let mut i: usize = 0;
    while b >= 3 && i <= b - 3
        invariant
            v@ == doc@,
            b <= v@.len(),
            i <= b,
            t == v@.subrange(0, b as int),
            trim_end(doc@) == t,
            first_assignment(t, 0) == first_assignment(t, i as int),
        decreases b - i,
    {
        if v[i] == ' ' && v[i + 1] == '=' && v[i + 2] == ' ' {
            let mut out = String::new();
            let mut k: usize = i + 3;
            while k < b
                invariant
                    i + 3 <= k <= b,
                    b <= v@.len(),
                    t == v@.subrange(0, b as int),
                    out@ =~= t.subrange(i + 3, k as int),
                decreases b - k,
            {
                push_char(&mut out, v[k]);
                k = k + 1;
            }
            assert(t.skip(i + 3) =~= t.subrange(i + 3, b as int));
            assert(assignment_at(t, i as int));
            assert(first_assignment(t, i as int) == Some(i as int));
            return Some(out);
        }
        i = i + 1;
    }
    None
}

/// Appends the line `<name> = <value>` for a field whose document `toml`
/// wrote as `doc`.
fn add_line(text: String, name: &str, doc: Option<String>) -> (r: Result<String, SiganError>)
    ensures
        match (r, then_line(Ok(text@), name@, field_value(match doc {
            Some(d) => Some(d@),
            None => None,
        }))) {
            (Ok(x), Ok(y)) => x@ == y,
            (Err(e), Err(f)) => e matches SiganError::Editor(m) && m@ == toml_failure_text(f),
            _ => false,
        },
{
    let d = match doc {
        Some(d) => d,
        None => {
            return Err(SiganError::Editor(String::from_str("serializing entry for TOML editing")));
        },
    };
    match value_of_document(d.as_str()) {
        Some(v) => {
            let mut r = text;
            r.append(name);
            r.append(" = ");
            r.append(v.as_str());
            r.append("\n");
            Ok(r)
        },
        None => Err(
            SiganError::Editor(String::from_str("serialized TOML value did not contain assignment")),
        ),
    }
}

/// Writes the TOML text an entry is edited in, as `toml_entry_text` says;
/// refused with the editor's message when `toml` fails.
pub fn format_toml_entry(entry: &TimeEntry) -> (r: Result<String, SiganError>)
    ensures
        match (r, toml_entry_text(entry@)) {
            (Ok(x), Ok(y)) => x@ == y,
            (Err(e), Err(f)) => e matches SiganError::Editor(m) && m@ == toml_failure_text(f),
            _ => false,
        },
{
    let ghost e = entry@;
    let end = match &entry.end_time {
        Some(t) => time_in_rfc3339(t),
        None => String::from_str("null"),
    };
    let text = add_line(String::new(), "id", toml_string_doc(entry.id.as_str()))?;
    let text = add_line(text, "start_time", toml_string_doc(time_in_rfc3339(&entry.start_time).as_str()))?;
    let text = add_line(text, "end_time", toml_string_doc(end.as_str()))?;
    let text = add_line(text, "project", toml_string_doc(entry.project.as_str()))?;
    let text = add_line(text, "comment", toml_string_doc(entry.comment.as_str()))?;
    let tags = entry.tags.to_vec();
    add_line(text, "tags", toml_array_doc(&tags))
}

} // verus!
