//! The cells of the ANSI tables: what each row of a listing, of a single
//! record and of an export summary shows, in which color.

use vstd::prelude::*;

use crate::models::{EntryView, MAX_DAYS, TimeEntry};
use crate::output::Locale;
use crate::output::layout::{AnsiColor, colorize, colorized, translate, translated};
use crate::output::list::ListRow;
use crate::output::duration::decimal;
use crate::output::records::{join, join_strings};
use crate::storage::order::views;
use crate::text::chars_of;
use crate::time::LocalDateTime;
use vstd::string::StringExecFns;

verus! {

/// What `chrono` writes for the time `secs`, `nanos` as a `DateTime` at the
/// fixed offset `offset` with the format `pattern`; `None` when `chrono`
/// cannot hold that time.
pub uninterp spec fn formatted_time(secs: int, nanos: int, offset: int, pattern: Seq<char>) -> Option<
    Seq<char>,
>;

/// The patterns the tables write times with: the time of day, and the
/// date with the time of day.
pub open spec fn known_pattern(pattern: Seq<char>) -> bool {
    pattern == "%H:%M:%S"@ || pattern == "%Y-%m-%d %H:%M:%S"@
}

/// Writes a time with a format pattern.
///
/// Trusted: builds a `chrono::DateTime` with `DateTime::from_timestamp`
/// and `FixedOffset::east_opt` and writes `format(pattern)`. The contract
/// names the result. Only the patterns the tables use are admitted: with
/// an invalid one, writing the result would panic.
#[verifier::external_body]
fn format_time(secs: i64, nanos: u32, offset: i32, pattern: &str) -> (r: Option<String>)
    requires
        known_pattern(pattern@),
    ensures
        match r {
            Some(x) => formatted_time(secs as int, nanos as int, offset as int, pattern@) == Some(x@),
            None => formatted_time(secs as int, nanos as int, offset as int, pattern@) is None,
        },
{
    let zone = chrono::FixedOffset::east_opt(offset)?;
    let time = chrono::DateTime::from_timestamp(secs, nanos)?;
    Some(time.with_timezone(&zone).format(pattern).to_string())
}

/// What `chrono` writes for the date `days` (days since 1970-01-01) with
/// the format `%Y-%m-%d`; `None` when `chrono` cannot hold that date.
pub uninterp spec fn date_text(days: int) -> Option<Seq<char>>;

/// Writes a date as `%Y-%m-%d`.
///
/// Trusted: calls `chrono::NaiveDate::from_epoch_days` and writes
/// `format("%Y-%m-%d")`. The contract names the result.
#[verifier::external_body]
fn format_date(days: i64) -> (r: Option<String>)
    requires
        -MAX_DAYS <= days <= MAX_DAYS,
    ensures
        match r {
            Some(x) => date_text(days as int) == Some(x@),
            None => date_text(days as int) is None,
        },
{
    let date = chrono::NaiveDate::from_epoch_days(days as i32)?;
    Some(date.format("%Y-%m-%d").to_string())
}

/// A time written with a pattern; empty when `chrono` cannot hold it.
pub open spec fn time_with(t: LocalDateTime, pattern: Seq<char>) -> Seq<char> {
    match formatted_time(t.timestamp(), t.nanosecond(), t.offset_secs(), pattern) {
        Some(x) => x,
        None => Seq::empty(),
    }
}

/// A date as `%Y-%m-%d`; empty when `chrono` cannot hold it.
pub open spec fn date_with(days: int) -> Seq<char> {
    match date_text(days) {
        Some(x) => x,
        None => Seq::empty(),
    }
}

/// The number of bytes UTF-8 takes for a character.
pub open spec fn utf8_width(c: char) -> nat {
    if (c as u32) < 0x80 {
        1
    } else if (c as u32) < 0x800 {
        2
    } else if (c as u32) < 0x10000 {
        3
    } else {
        4
    }
}

/// The number of bytes UTF-8 takes for a text.
pub open spec fn utf8_size(s: Seq<char>) -> nat
    decreases s.len(),
{
    if s.len() == 0 {
        0
    } else {
        utf8_width(s[0]) + utf8_size(s.drop_first())
    }
}

/// The first `k` bytes of `s` end where a character ends.
pub open spec fn fills_exactly(s: Seq<char>, k: int) -> bool
    decreases s.len(),
{
    if k <= 0 {
        k == 0
    } else {
        s.len() > 0 && utf8_width(s[0]) <= k && fills_exactly(s.drop_first(), k - utf8_width(s[0]))
    }
}

/// The characters of the first `k` bytes of `s`.
pub open spec fn bytes_prefix(s: Seq<char>, k: int) -> Seq<char>
    decreases s.len(),
{
    if k <= 0 || s.len() == 0 {
        Seq::empty()
    } else {
        seq![s[0]] + bytes_prefix(s.drop_first(), k - utf8_width(s[0]))
    }
}

/// The bytes of an id that the tables show: its first four, or all of it
/// when it is shorter.
pub open spec fn short_id_bytes(id: Seq<char>) -> int {
    if utf8_size(id) < 4 {
        utf8_size(id) as int
    } else {
        4
    }
}

/// Cutting an id after its first four bytes cuts no character in two;
/// slicing the id there would panic otherwise.
pub open spec fn short_id_fits(id: Seq<char>) -> bool {
    fills_exactly(id, short_id_bytes(id))
}

/// The beginning of an id that a listing shows.
pub open spec fn short_id(id: Seq<char>) -> Seq<char> {
    bytes_prefix(id, short_id_bytes(id))
}

/// The number of bytes UTF-8 takes for a character.
fn char_width(c: char) -> (r: usize)
    ensures
        r == utf8_width(c),
{
    if (c as u32) < 0x80 {
        1
    } else if (c as u32) < 0x800 {
        2
    } else if (c as u32) < 0x10000 {
        3
    } else {
        4
    }
}

/// The beginning of an id that a listing shows: its first four bytes.
pub fn id_prefix_shown(id: &str) -> (r: String)
    requires
        short_id_fits(id@),
    ensures
        r@ == short_id(id@),
{
    let v = chars_of(id);
    let n = v.len();
    let mut size: usize = 0;
    let mut i: usize = 0;
    assert(v@.skip(0) =~= v@);
    while i < n && size < 4
        invariant
            v@ == id@,
            n == v@.len(),
            i <= n,
            size < 8,
            utf8_size(v@) == size + utf8_size(v@.skip(i as int)),
        decreases n - i,
    {
        assert(v@.skip(i as int).drop_first() =~= v@.skip(i + 1));
        size = size + char_width(v[i]);
        i = i + 1;
    }
    let limit: usize = if size < 4 {
        size
    } else {
        4
    };
    proof {
        if size < 4 {
            assert(v@.skip(i as int) =~= Seq::<char>::empty());
        }
        assert(limit == short_id_bytes(id@));
    }
    let mut out = String::new();
    let mut used: usize = 0;
    let mut j: usize = 0;
    assert(v@.take(0) =~= Seq::<char>::empty());
    while used < limit
        invariant
            v@ == id@,
            n == v@.len(),
            j <= n,
            used <= limit <= 4,
            fills_exactly(v@.skip(j as int), limit - used),
            short_id(id@) == out@ + bytes_prefix(v@.skip(j as int), limit - used),
        decreases limit - used,
    {
        let ghost rest = v@.skip(j as int);
        assert(rest.drop_first() =~= v@.skip(j + 1));
        assert(rest[0] == v@[j as int]);
        let w = char_width(v[j]);
        let ghost before = out@;
        crate::text::push_char(&mut out, v[j]);
        assert(before + bytes_prefix(rest, limit - used) =~= out@ + bytes_prefix(
            v@.skip(j + 1),
            limit - used - w,
        ));
        used = used + w;
        j = j + 1;
    }
    assert(out@ + bytes_prefix(v@.skip(j as int), 0) =~= out@);
    out
}

/// The cell of a text in a color.
fn cell(value: &str, color: AnsiColor) -> (r: String)
    ensures
        r@ == colorized(value@, color),
{
    colorize(value, color)
}

/// The header row of a listing.
pub open spec fn list_header(locale: Locale) -> Seq<Seq<char>> {
    seq![
        colorized(translated(locale, "id"@), AnsiColor::DarkGrey),
        colorized(translated(locale, "start"@), AnsiColor::Cyan),
        colorized(translated(locale, "end"@), AnsiColor::Magenta),
        colorized(translated(locale, "delta"@), AnsiColor::Cyan),
        colorized(translated(locale, "project"@), AnsiColor::Green),
        colorized(translated(locale, "comments"@), AnsiColor::Blue),
        colorized(translated(locale, "tags"@), AnsiColor::Red),
    ]
}

/// A row with a colored label and a colored duration.
pub open spec fn summary_cells(label: Seq<char>, delta: Seq<char>, color: AnsiColor) -> Seq<
    Seq<char>,
> {
    seq![
        Seq::empty(),
        colorized(label, color),
        Seq::empty(),
        colorized(delta, color),
        Seq::empty(),
        Seq::empty(),
        Seq::empty(),
    ]
}

/// The cells of a row of a listing of `entries`, with `delta` the text of
/// its duration: the date; an entry's short id, start and end time of day
/// (`-` while it runs), duration, project, comment and tags; a subtotal or
/// the total with its duration.
pub open spec fn row_cells(locale: Locale, entries: Seq<EntryView>, row: ListRow, delta: Seq<char>) -> Seq<
    Seq<char>,
> {
    match row {
        ListRow::Day { date } => seq![
            Seq::empty(),
            colorized(date_with(date as int), AnsiColor::Yellow),
            Seq::empty(),
            Seq::empty(),
            Seq::empty(),
            Seq::empty(),
            Seq::empty(),
        ],
        ListRow::Entry { index, nanos } => {
            let e = entries[index as int];
            seq![
                colorized(short_id(e.id), AnsiColor::DarkGrey),
                colorized(time_with(e.start_time, "%H:%M:%S"@), AnsiColor::Cyan),
                match e.end_time {
                    Some(t) => colorized(time_with(t, "%H:%M:%S"@), AnsiColor::Magenta),
                    None => "-"@,
                },
                colorized(delta, AnsiColor::Cyan),
                colorized(e.project, AnsiColor::Green),
                colorized(e.comment, AnsiColor::Blue),
                colorized(join(e.tags, ", "@), AnsiColor::Red),
            ]
        },
        ListRow::Subtotal { nanos } => summary_cells(
            translated(locale, "subtotal"@),
            delta,
            AnsiColor::DarkGrey,
        ),
        ListRow::Total { nanos } => summary_cells(
            translated(locale, "total"@),
            delta,
            AnsiColor::Yellow,
        ),
    }
}

/// The rows can be shown: every entry row names an entry whose short id
/// can be cut, and every date lies in the range of dates.
pub open spec fn rows_showable(entries: Seq<EntryView>, rows: Seq<ListRow>) -> bool {
    forall|k: int|
        0 <= k < rows.len() ==> match #[trigger] rows[k] {
            ListRow::Entry { index, nanos } => index < entries.len() && short_id_fits(
                entries[index as int].id,
            ),
            ListRow::Day { date } => -MAX_DAYS <= date <= MAX_DAYS,
            _ => true,
        }
}

fn time_cell(t: &LocalDateTime, pattern: &str) -> (r: String)
    requires
        known_pattern(pattern@),
    ensures
        r@ == time_with(*t, pattern@),
{
    let (secs, nanos, offset) = t.parts();
    match format_time(secs, nanos, offset, pattern) {
        Some(x) => x,
        None => String::new(),
    }
}

fn empty_cell() -> (r: String)
    ensures
        r@ == Seq::<char>::empty(),
{
    String::new()
}

/// The cells of one row of a listing, as `row_cells` says.
fn list_row_cells(locale: Locale, entries: &[TimeEntry], row: ListRow, delta: &str) -> (r: Vec<
    String,
>)
    requires
        match row {
            ListRow::Entry { index, nanos } => index < entries@.len() && short_id_fits(
                entries@[index as int]@.id,
            ),
            ListRow::Day { date } => -MAX_DAYS <= date <= MAX_DAYS,
            _ => true,
        },
    ensures
        r@.map_values(|s: String| s@) == row_cells(locale, views(entries@), row, delta@),
{
    let mut r: Vec<String> = Vec::new();
    match row {
        ListRow::Day { date } => {
            let text = match format_date(date) {
                Some(x) => x,
                None => String::new(),
            };
            r.push(empty_cell());
            r.push(cell(text.as_str(), AnsiColor::Yellow));
            r.push(empty_cell());
            r.push(empty_cell());
            r.push(empty_cell());
            r.push(empty_cell());
            r.push(empty_cell());
        },
        ListRow::Entry { index, nanos } => {
            let e = &entries[index];
            proof {
                reveal_strlit("%H:%M:%S");
                reveal_strlit("-");
            }
            r.push(cell(id_prefix_shown(e.id.as_str()).as_str(), AnsiColor::DarkGrey));
            r.push(cell(time_cell(&e.start_time, "%H:%M:%S").as_str(), AnsiColor::Cyan));
            match &e.end_time {
                Some(t) => r.push(cell(time_cell(t, "%H:%M:%S").as_str(), AnsiColor::Magenta)),
                None => r.push(String::from_str("-")),
            }
            r.push(cell(delta, AnsiColor::Cyan));
            r.push(cell(e.project.as_str(), AnsiColor::Green));
            r.push(cell(e.comment.as_str(), AnsiColor::Blue));
            r.push(cell(join_strings(&e.tags.to_vec(), ", ").as_str(), AnsiColor::Red));
        },
        ListRow::Subtotal { nanos } => {
            r.push(empty_cell());
            r.push(cell(translate(locale, "subtotal"), AnsiColor::DarkGrey));
            r.push(empty_cell());
            r.push(cell(delta, AnsiColor::DarkGrey));
            r.push(empty_cell());
            r.push(empty_cell());
            r.push(empty_cell());
        },
        ListRow::Total { nanos } => {
            r.push(empty_cell());
            r.push(cell(translate(locale, "total"), AnsiColor::Yellow));
            r.push(empty_cell());
            r.push(cell(delta, AnsiColor::Yellow));
            r.push(empty_cell());
            r.push(empty_cell());
            r.push(empty_cell());
        },
    }
    assert(r@.map_values(|s: String| s@) =~= row_cells(locale, views(entries@), row, delta@));
    r
}

/// The cells of a listing: the header, then one row of cells for each row
/// of `rows`, with `deltas` the texts of the rows' durations.
pub fn list_cells(locale: Locale, entries: &[TimeEntry], rows: &Vec<ListRow>, deltas: &Vec<String>) -> (r:
    Vec<Vec<String>>)
    requires
        deltas@.len() == rows@.len(),
        rows_showable(views(entries@), rows@),
    ensures
        r@.len() == rows@.len() + 1,
        r@[0]@.map_values(|s: String| s@) == list_header(locale),
        forall|k: int|
            0 <= k < rows@.len() ==> (#[trigger] r@[k + 1])@.map_values(|s: String| s@) == row_cells(
                locale,
                views(entries@),
                rows@[k],
                deltas@[k]@,
            ),
{
    let mut r: Vec<Vec<String>> = Vec::new();
    let mut header: Vec<String> = Vec::new();
    header.push(cell(translate(locale, "id"), AnsiColor::DarkGrey));
    header.push(cell(translate(locale, "start"), AnsiColor::Cyan));
    header.push(cell(translate(locale, "end"), AnsiColor::Magenta));
    header.push(cell(translate(locale, "delta"), AnsiColor::Cyan));
    header.push(cell(translate(locale, "project"), AnsiColor::Green));
    header.push(cell(translate(locale, "comments"), AnsiColor::Blue));
    header.push(cell(translate(locale, "tags"), AnsiColor::Red));
    assert(header@.map_values(|s: String| s@) =~= list_header(locale));
    r.push(header);
    let mut k: usize = 0;
    while k < rows.len()
        invariant
            k <= rows@.len(),
            deltas@.len() == rows@.len(),
            rows_showable(views(entries@), rows@),
            r@.len() == k + 1,
            r@[0]@.map_values(|s: String| s@) == list_header(locale),
            forall|j: int|
                0 <= j < k ==> (#[trigger] r@[j + 1])@.map_values(|s: String| s@) == row_cells(
                    locale,
                    views(entries@),
                    rows@[j],
                    deltas@[j]@,
                ),
        decreases rows@.len() - k,
    {
        let row = rows[k];
        assert(row == rows@[k as int]);
        let cells = list_row_cells(locale, entries, row, deltas[k].as_str());
        r.push(cells);
        k = k + 1;
    }
    r
}

/// The rows of a single record: a label and a value each.
pub open spec fn record_rows(locale: Locale, e: EntryView, delta: Seq<char>) -> Seq<
    (Seq<char>, Seq<char>),
> {
    seq![
        (
            colorized(translated(locale, "field"@), AnsiColor::DarkGrey),
            colorized(translated(locale, "value"@), AnsiColor::DarkGrey),
        ),
        (translated(locale, "ID"@), colorized(e.id, AnsiColor::Magenta)),
        (
            translated(locale, "start time"@),
            colorized(time_with(e.start_time, "%Y-%m-%d %H:%M:%S"@), AnsiColor::Cyan),
        ),
        (
            translated(locale, "end time"@),
            match e.end_time {
                Some(t) => colorized(time_with(t, "%H:%M:%S"@), AnsiColor::Magenta),
                None => "-"@,
            },
        ),
        (translated(locale, "delta"@), colorized(delta, AnsiColor::Cyan)),
        (translated(locale, "project"@), colorized(e.project, AnsiColor::Green)),
        (translated(locale, "comments"@), colorized(e.comment, AnsiColor::Blue)),
        (translated(locale, "tags"@), colorized(join(e.tags, ", "@), AnsiColor::Red)),
    ]
}

fn pair(a: String, b: String) -> (r: (String, String))
    ensures
        r.0@ == a@,
        r.1@ == b@,
{
    (a, b)
}

fn label(locale: Locale, message: &str) -> (r: String)
    ensures
        r@ == translated(locale, message@),
{
    String::from_str(translate(locale, message))
}

/// The rows of the table of a single record, the header first, with
/// `delta` the text of the entry's duration. The id is shown whole; as
/// when it is cut for a listing, its first four bytes must end where a
/// character ends.
pub fn single_record_rows(locale: Locale, entry: &TimeEntry, delta: &str) -> (r: Vec<(String, String)>)
    requires
        short_id_fits(entry@.id),
    ensures
        r@.map_values(|p: (String, String)| (p.0@, p.1@)) == record_rows(locale, entry@, delta@),
{
    proof {
        reveal_strlit("%H:%M:%S");
        reveal_strlit("%Y-%m-%d %H:%M:%S");
        reveal_strlit("-");
    }
    let mut r: Vec<(String, String)> = Vec::new();
    r.push(
        pair(
            cell(translate(locale, "field"), AnsiColor::DarkGrey),
            cell(translate(locale, "value"), AnsiColor::DarkGrey),
        ),
    );
    r.push(pair(label(locale, "ID"), cell(entry.id.as_str(), AnsiColor::Magenta)));
    r.push(
        pair(
            label(locale, "start time"),
            cell(time_cell(&entry.start_time, "%Y-%m-%d %H:%M:%S").as_str(), AnsiColor::Cyan),
        ),
    );
    let end = match &entry.end_time {
        Some(t) => cell(time_cell(t, "%H:%M:%S").as_str(), AnsiColor::Magenta),
        None => String::from_str("-"),
    };
    r.push(pair(label(locale, "end time"), end));
    r.push(pair(label(locale, "delta"), cell(delta, AnsiColor::Cyan)));
    r.push(pair(label(locale, "project"), cell(entry.project.as_str(), AnsiColor::Green)));
    r.push(pair(label(locale, "comments"), cell(entry.comment.as_str(), AnsiColor::Blue)));
    r.push(
        pair(
            label(locale, "tags"),
            cell(join_strings(&entry.tags.to_vec(), ", ").as_str(), AnsiColor::Red),
        ),
    );
    assert(r@.map_values(|p: (String, String)| (p.0@, p.1@)) =~= record_rows(
        locale,
        entry@,
        delta@,
    ));
    r
}

/// The header and the row of the export summary: how many records went
/// to which file.
pub open spec fn export_rows(locale: Locale, count: nat, path: Seq<char>) -> Seq<
    (Seq<char>, Seq<char>),
> {
    seq![
        (
            colorized(translated(locale, "records exported"@), AnsiColor::Cyan),
            colorized(translated(locale, "filename"@), AnsiColor::Cyan),
        ),
        (colorized(decimal(count), AnsiColor::Green), colorized(path, AnsiColor::Blue)),
    ]
}

/// The rows of the export summary, as `export_rows` says.
pub fn export_summary_rows(locale: Locale, count: u64, path: &str) -> (r: Vec<(String, String)>)
    ensures
        r@.map_values(|p: (String, String)| (p.0@, p.1@)) == export_rows(locale, count as nat, path@),
{
    let mut r: Vec<(String, String)> = Vec::new();
    r.push(
        pair(
            cell(translate(locale, "records exported"), AnsiColor::Cyan),
            cell(translate(locale, "filename"), AnsiColor::Cyan),
        ),
    );
    let n = crate::output::duration::decimal_string(count);
    r.push(pair(cell(n.as_str(), AnsiColor::Green), cell(path, AnsiColor::Blue)));
    assert(r@.map_values(|p: (String, String)| (p.0@, p.1@)) =~= export_rows(
        locale,
        count as nat,
        path@,
    ));
    r
}

/// The line that reports an export in the plain formats.
pub open spec fn export_line(count: nat, path: Seq<char>) -> Seq<char> {
    "Exported "@ + decimal(count) + " entries to "@ + path
}

/// Writes the line that reports an export.
pub fn export_message(count: u64, path: &str) -> (r: String)
    ensures
        r@ == export_line(count as nat, path@),
{
    let mut r = String::from_str("Exported ");
    r.append(crate::output::duration::decimal_string(count).as_str());
    r.append(" entries to ");
    r.append(path);
    r
}

} // verus!
