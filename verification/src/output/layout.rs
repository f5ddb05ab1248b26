//! Layout rules of ANSI output: colors, labels, widths and titles.

use vstd::prelude::*;

use crate::output::Locale;
use crate::string_set::str_equal;
use crate::text::{chars_of, push_char};
use vstd::string::StringExecFns;

verus! {

/// The colors of ANSI output.
#[derive(Debug, Clone, Copy, PartialEq, Eq, Structural)]
pub enum AnsiColor {
    DarkGrey,
    White,
    Red,
    Green,
    Yellow,
    Blue,
    Magenta,
    Cyan,
}

/// The SGR code of a color.
pub open spec fn color_code(c: AnsiColor) -> Seq<char> {
    match c {
        AnsiColor::DarkGrey => "90"@,
        AnsiColor::White => "37"@,
        AnsiColor::Red => "31"@,
        AnsiColor::Green => "32"@,
        AnsiColor::Yellow => "33"@,
        AnsiColor::Blue => "34"@,
        AnsiColor::Magenta => "35"@,
        AnsiColor::Cyan => "36"@,
    }
}

impl AnsiColor {
    /// The SGR code of the color.
    pub fn code(self) -> (r: &'static str)
        ensures
            r@ == color_code(self),
    {
        match self {
            AnsiColor::DarkGrey => "90",
            AnsiColor::White => "37",
            AnsiColor::Red => "31",
            AnsiColor::Green => "32",
            AnsiColor::Yellow => "33",
            AnsiColor::Blue => "34",
            AnsiColor::Magenta => "35",
            AnsiColor::Cyan => "36",
        }
    }
}

/// The text in a color: `ESC[<code>m`, the text, `ESC[0m`; empty text
/// stays empty.
pub open spec fn colorized(value: Seq<char>, color: AnsiColor) -> Seq<char> {
    if value.len() == 0 {
        value
    } else {
        "\x1b["@ + color_code(color) + "m"@ + value + "\x1b[0m"@
    }
}

/// The text in italics and a color: `ESC[3;<code>m`, the text, `ESC[0m`;
/// empty text stays empty.
pub open spec fn italicized(value: Seq<char>, color: AnsiColor) -> Seq<char> {
    if value.len() == 0 {
        value
    } else {
        "\x1b[3;"@ + color_code(color) + "m"@ + value + "\x1b[0m"@
    }
}

/// Wraps text in a color.
pub fn colorize(value: &str, color: AnsiColor) -> (r: String)
    ensures
        r@ == colorized(value@, color),
{
    if value.is_empty() {
        return String::new();
    }
    let mut r = String::from_str("\x1b[");
    r.append(color.code());
    r.append("m");
    r.append(value);
    r.append("\x1b[0m");
    r
}

/// Wraps text in italics and a color.
pub fn italicize(value: &str, color: AnsiColor) -> (r: String)
    ensures
        r@ == italicized(value@, color),
{
    if value.is_empty() {
        return String::new();
    }
    let mut r = String::from_str("\x1b[3;");
    r.append(color.code());
    r.append("m");
    r.append(value);
    r.append("\x1b[0m");
    r
}

/// An ASCII letter.
pub open spec fn is_ascii_letter(c: char) -> bool {
    ('a' <= c && c <= 'z') || ('A' <= c && c <= 'Z')
}

/// What follows an escape sequence's body: everything after its first
/// ASCII letter, or nothing when it has none.
pub open spec fn after_escape(s: Seq<char>) -> Seq<char>
    decreases s.len(),
{
    if s.len() == 0 {
        s
    } else if is_ascii_letter(s[0]) {
        s.drop_first()
    } else {
        after_escape(s.drop_first())
    }
}

/// The number of characters of `s` that show on a terminal: escape
/// sequences `ESC [ ... <letter>` count for nothing, every other character
/// for one.
pub open spec fn visible_width_of(s: Seq<char>) -> nat
    decreases s.len(),
{
    if s.len() == 0 {
        0
    } else if s[0] == '\x1b' && s.len() > 1 && s[1] == '[' {
        proof {
            lemma_after_escape_shorter(s.skip(2));
        }
        visible_width_of(after_escape(s.skip(2)))
    } else {
        1 + visible_width_of(s.drop_first())
    }
}

/// What follows an escape sequence is a suffix of it, never longer.
pub proof fn lemma_after_escape_shorter(s: Seq<char>)
    ensures
        after_escape(s).len() <= s.len(),
        exists|k: int| 0 <= k <= s.len() && after_escape(s) == s.skip(k),
    decreases s.len(),
{
    if s.len() == 0 {
        assert(s.skip(0) =~= s);
    } else if is_ascii_letter(s[0]) {
        assert(s.skip(1) =~= s.drop_first());
    } else {
        lemma_after_escape_shorter(s.drop_first());
        let k = choose|k: int| 0 <= k <= s.drop_first().len() && after_escape(s.drop_first())
            == s.drop_first().skip(k);
        assert(s.drop_first().skip(k) =~= s.skip(k + 1));
    }
}

/// The number of characters of `value` that show on a terminal.
pub fn visible_width(value: &str) -> (r: usize)
    ensures
        r == visible_width_of(value@),
{
    let v = chars_of(value);
    let n = v.len();
    let mut width: usize = 0;
    let mut i: usize = 0;
    assert(v@.skip(0) =~= v@);
    while i < n
        invariant
            v@ == value@,
            n == v@.len(),
            i <= n,
            width <= i,
            visible_width_of(v@) == width + visible_width_of(v@.skip(i as int)),
        decreases n - i,
    {
        let ghost rest = v@.skip(i as int);
        if v[i] == '\x1b' && i + 1 < n && v[i + 1] == '[' {
            let mut j: usize = i + 2;
            assert(rest.skip(2) =~= v@.skip(j as int));
            while j < n && !(('a' <= v[j] && v[j] <= 'z') || ('A' <= v[j] && v[j] <= 'Z'))
                invariant
                    i + 2 <= j <= n,
                    n == v@.len(),
                    after_escape(rest.skip(2)) == after_escape(v@.skip(j as int)),
                decreases n - j,
            {
                assert(v@.skip(j as int).drop_first() =~= v@.skip(j + 1));
                j = j + 1;
            }
            if j < n {
                assert(v@.skip(j as int).drop_first() =~= v@.skip(j + 1));
                i = j + 1;
            } else {
                i = n;
            }
        } else {
            assert(rest.drop_first() =~= v@.skip(i + 1));
            width = width + 1;
            i = i + 1;
        }
    }
    width
}

/// The width of the comments column of a list that fits `table_width`
/// columns: what the other columns, their padding and borders leave, but
/// at least 4 (12 from 80 columns on) and at most 72.
pub open spec fn comment_width(table_width: int) -> int {
    let minimum = if table_width < 80 {
        4
    } else {
        12
    };
    let left = if table_width > 75 {
        table_width - 75
    } else {
        0
    };
    if left < minimum {
        minimum
    } else if left > 72 {
        72
    } else {
        left
    }
}

/// The width of the comments column of a list.
pub fn comment_column_width(table_width: usize) -> (r: usize)
    ensures
        r == comment_width(table_width as int),
{
    let minimum: usize = if table_width < 80 {
        4
    } else {
        12
    };
    let left = table_width.saturating_sub(14 + 8 + (4 + 10 + 8 + 9 + 12 + 10));
    if left < minimum {
        minimum
    } else if left > 72 {
        72
    } else {
        left
    }
}

/// The width of the value column of a two-column table that fits
/// `table_width` columns beside a label column of `label_width`: what is
/// left after padding and borders, between 8 and 100.
pub open spec fn value_width(table_width: int, label_width: int) -> int {
    let left = if table_width > 7 + label_width {
        table_width - 7 - label_width
    } else {
        0
    };
    if left < 8 {
        8
    } else if left > 100 {
        100
    } else {
        left
    }
}

/// The width of the value column of a two-column table.
pub fn two_column_value_width(table_width: usize, label_width: usize) -> (r: usize)
    ensures
        r == value_width(table_width as int, label_width as int),
{
    let pad: usize = 4 + 3;
    let left = if label_width <= usize::MAX - pad {
        table_width.saturating_sub(pad + label_width)
    } else {
        0
    };
    if left < 8 {
        8
    } else if left > 100 {
        100
    } else {
        left
    }
}

/// The value of a text of ASCII digits.
pub open spec fn digits_value(d: Seq<char>) -> int
    decreases d.len(),
{
    if d.len() == 0 {
        0
    } else {
        digits_value(d.drop_last()) * 10 + (d.last() as int - '0' as int)
    }
}

/// The text after an optional leading `+`.
pub open spec fn unsigned_digits(s: Seq<char>) -> Seq<char> {
    if s.len() > 0 && s[0] == '+' {
        s.drop_first()
    } else {
        s
    }
}

/// Every character is an ASCII digit.
pub open spec fn all_digits(d: Seq<char>) -> bool {
    forall|i: int| 0 <= i < d.len() ==> '0' <= #[trigger] d[i] && d[i] <= '9'
}

/// What `str::parse::<u16>` reads from a text: an optional `+`, then one
/// or more ASCII digits whose value is below 65536; `None` otherwise.
pub open spec fn parsed_u16(s: Seq<char>) -> Option<int> {
    let d = unsigned_digits(s);
    if d.len() == 0 || !all_digits(d) || digits_value(d) > 65535 {
        None
    } else {
        Some(digits_value(d))
    }
}

proof fn lemma_digits_value_grows(d: Seq<char>, k: int)
    requires
        0 <= k <= d.len(),
        forall|i: int| 0 <= i < d.len() ==> '0' <= #[trigger] d[i] && d[i] <= '9',
    ensures
        0 <= digits_value(d.take(k)) <= digits_value(d),
    decreases d.len() - k,
{
    if k < d.len() {
        lemma_digits_value_grows(d, k + 1);
        assert(d.take(k + 1).drop_last() =~= d.take(k));
    } else {
        assert(d.take(k) =~= d);
    }
    lemma_digits_value_nonneg(d.take(k));
}

proof fn lemma_digits_value_nonneg(d: Seq<char>)
    requires
        forall|i: int| 0 <= i < d.len() ==> '0' <= #[trigger] d[i] && d[i] <= '9',
    ensures
        0 <= digits_value(d),
    decreases d.len(),
{
    if d.len() > 0 {
        lemma_digits_value_nonneg(d.drop_last());
    }
}

/// Reads a `u16` as `str::parse` does.
pub fn parse_u16(s: &str) -> (r: Option<u16>)
    ensures
        match r {
            Some(v) => parsed_u16(s@) == Some(v as int),
            None => parsed_u16(s@) is None,
        },
{
    let v = chars_of(s);
    let start: usize = if v.len() > 0 && v[0] == '+' {
        1
    } else {
        0
    };
    let ghost d = s@.skip(start as int);
    assert(start == 1 ==> d =~= s@.drop_first());
    assert(start == 0 ==> d =~= s@);
    if start == v.len() {
        return None;
    }
    let mut value: u32 = 0;
    let mut i: usize = start;
    while i < v.len()
        invariant
            v@ == s@,
            start <= i <= v@.len(),
            d == s@.skip(start as int),
            d == unsigned_digits(s@),
            d.len() > 0,
            value <= 65535,
            value == digits_value(d.take(i - start)),
            forall|j: int| 0 <= j < i - start ==> '0' <= #[trigger] d[j] && d[j] <= '9',
        decreases v@.len() - i,
    {
        let c = v[i];
        assert(d[i - start] == c);
        if !('0' <= c && c <= '9') {
            assert(!('0' <= d[i - start] && d[i - start] <= '9'));
            return None;
        }
        let ghost k = i - start;
        assert(d.take(k + 1).drop_last() =~= d.take(k));
        assert(d.take(k + 1).last() == c);
        let next: u32 = value * 10 + (c as u32 - '0' as u32);
        assert(next == digits_value(d.take(k + 1)));
        if next > 65535 {
            proof {
                if all_digits(d) {
                    lemma_digits_value_grows(d, k + 1);
                }
            }
            return None;
        }
        value = next;
        i = i + 1;
    }
    assert(d.take(i - start) =~= d);
    Some(value as u16)
}

/// The width an ANSI table is fitted to: on a terminal, its width (100
/// when it is unknown or zero); elsewhere the width that `COLUMNS` names
/// when that reads as a number of at least 80, else 100.
pub open spec fn fitted_width(on_terminal: bool, terminal_width: Option<u16>, columns: Option<Seq<char>>) -> int {
    if on_terminal {
        match terminal_width {
            Some(w) => if w > 0 {
                w as int
            } else {
                100
            },
            None => 100,
        }
    } else {
        match columns {
            Some(c) => match parsed_u16(c) {
                Some(w) => if w >= 80 {
                    w
                } else {
                    100
                },
                None => 100,
            },
            None => 100,
        }
    }
}

/// Chooses the width an ANSI table is fitted to, as `fitted_width` says,
/// from whether output goes to a terminal, the terminal's width and the
/// value of `COLUMNS`.
pub fn table_width(on_terminal: bool, terminal_width: Option<u16>, columns: Option<String>) -> (r: u16)
    ensures
        r == fitted_width(on_terminal, terminal_width, match columns {
            Some(c) => Some(c@),
            None => None,
        }),
{
    if on_terminal {
        match terminal_width {
            Some(w) => if w > 0 {
                w
            } else {
                100
            },
            None => 100,
        }
    } else {
        match columns {
            Some(c) => match parse_u16(c.as_str()) {
                Some(w) => if w >= 80 {
                    w
                } else {
                    100
                },
                None => 100,
            },
            None => 100,
        }
    }
}

/// The characters of `s` up to its first line feed.
pub open spec fn until_newline(s: Seq<char>) -> Seq<char>
    decreases s.len(),
{
    if s.len() == 0 || s[0] == '\n' {
        Seq::empty()
    } else {
        seq![s[0]] + until_newline(s.drop_first())
    }
}

/// The first line of `s`, as `str::lines` gives it: `None` for empty text;
/// else the text up to the first line feed, without a carriage return
/// right before that line feed.
pub open spec fn first_line(s: Seq<char>) -> Option<Seq<char>> {
    if s.len() == 0 {
        None
    } else {
        let l = until_newline(s);
        if l.len() < s.len() && l.len() > 0 && l.last() == '\r' {
            Some(l.drop_last())
        } else {
            Some(l)
        }
    }
}

/// `n` spaces.
pub open spec fn spaces(n: nat) -> Seq<char> {
    Seq::new(n, |i: int| ' ')
}

/// A table with its title centred above it, in white italics: as many
/// spaces as half of what the table's first line is wider than the title,
/// the title, a line feed, the table.
pub open spec fn centered_title(table: Seq<char>, title: Seq<char>) -> Seq<char> {
    let table_width: int = match first_line(table) {
        Some(l) => visible_width_of(l) as int,
        None => title.len() as int,
    };
    let left: int = if table_width > title.len() {
        (table_width - title.len()) / 2
    } else {
        0
    };
    spaces(left as nat) + italicized(title, AnsiColor::White) + seq!['\n'] + table
}

proof fn lemma_until_newline(s: Seq<char>, i: int)
    requires
        0 <= i <= s.len(),
        forall|k: int| 0 <= k < i ==> s[k] != '\n',
        i == s.len() || s[i] == '\n',
    ensures
        until_newline(s) == s.take(i),
    decreases s.len(),
{
    if s.len() == 0 {
        assert(s.take(i) =~= Seq::<char>::empty());
    } else if i == 0 {
        assert(s.take(i) =~= Seq::<char>::empty());
    } else {
        lemma_until_newline(s.drop_first(), i - 1);
        assert(seq![s[0]] + s.drop_first().take(i - 1) =~= s.take(i));
    }
}

/// The first line of `s`, as `first_line` says.
pub fn first_line_of(s: &str) -> (r: Option<String>)
    ensures
        match r {
            Some(l) => first_line(s@) == Some(l@),
            None => first_line(s@) is None,
        },
{
    let v = chars_of(s);
    if v.len() == 0 {
        return None;
    }
    let mut i: usize = 0;
    while i < v.len() && v[i] != '\n'
        invariant
            i <= v@.len(),
            v@ == s@,
            forall|k: int| 0 <= k < i ==> v@[k] != '\n',
        decreases v@.len() - i,
    {
        i = i + 1;
    }
    proof {
        lemma_until_newline(v@, i as int);
    }
    let end: usize = if i < v.len() && i > 0 && v[i - 1] == '\r' {
        i - 1
    } else {
        i
    };
    let mut line: Vec<char> = Vec::new();
    let mut k: usize = 0;
    while k < end
        invariant
            k <= end <= v@.len(),
            line@ =~= v@.take(k as int),
        decreases end - k,
    {
        line.push(v[k]);
        k = k + 1;
    }
    assert(line@ =~= v@.take(end as int));
    proof {
        if i > 0 {
            assert(v@.take(i as int).drop_last() =~= v@.take(i - 1));
        }
    }
    Some(crate::text::string_from_chars(&line))
}

/// Puts the title, centred and in white italics, above the table.
pub fn with_centered_title(table: String, title: &str) -> (r: String)
    ensures
        r@ == centered_title(table@, title@),
{
    let title_width = chars_of(title).len();
    let table_width = match first_line_of(table.as_str()) {
        Some(l) => visible_width(l.as_str()),
        None => title_width,
    };
    let left_padding = table_width.saturating_sub(title_width) / 2;
    let mut r = String::new();
    let mut i: usize = 0;
    while i < left_padding
        invariant
            i <= left_padding,
            r@ =~= spaces(i as nat),
        decreases left_padding - i,
    {
        push_char(&mut r, ' ');
        i = i + 1;
    }
    r.append(italicize(title, AnsiColor::White).as_str());
    push_char(&mut r, '\n');
    r.append(table.as_str());
    r
}

/// The labels that output knows.
pub open spec fn is_known_label(m: Seq<char>) -> bool {
    m == "Time Record"@
        || m == "Time Records"@
        || m == "Export"@
        || m == "Status"@
        || m == "field"@
        || m == "value"@
        || m == "id"@
        || m == "ID"@
        || m == "start"@
        || m == "start time"@
        || m == "end"@
        || m == "end time"@
        || m == "delta"@
        || m == "duration"@
        || m == "tags"@
        || m == "comments"@
        || m == "project"@
        || m == "subtotal"@
        || m == "total"@
        || m == "No active time record."@
        || m == "records exported"@
        || m == "filename"@
}

/// The English text of a label: the label itself when it is known, else
/// empty.
pub open spec fn english_text(m: Seq<char>) -> Seq<char> {
    if is_known_label(m) {
        m
    } else {
        ""@
    }
}

/// The Korean text of a label; labels without one fall back to English.
pub open spec fn korean_text(m: Seq<char>) -> Seq<char> {
    if m == "Time Record"@ {
        "시간 기록"@
    } else if m == "Time Records"@ {
        "시간 기록"@
    } else if m == "Export"@ {
        "내보내기"@
    } else if m == "Status"@ {
        "상태"@
    } else if m == "field"@ {
        "필드 이름"@
    } else if m == "value"@ {
        "값"@
    } else if m == "id"@ {
        "아이디"@
    } else if m == "ID"@ {
        "아이디"@
    } else if m == "start"@ {
        "시작 시간"@
    } else if m == "start time"@ {
        "시작 시간"@
    } else if m == "end"@ {
        "종료 시간"@
    } else if m == "end time"@ {
        "종료 시간"@
    } else if m == "delta"@ {
        "지속 시간"@
    } else if m == "duration"@ {
        "지속 시간"@
    } else if m == "tags"@ {
        "태그"@
    } else if m == "comments"@ {
        "댓글"@
    } else if m == "project"@ {
        "프로젝트"@
    } else if m == "subtotal"@ {
        "소계"@
    } else if m == "total"@ {
        "총"@
    } else if m == "No active time record."@ {
        "시간 기록 없음."@
    } else if m == "records exported"@ {
        "내보낸 기록 수"@
    } else if m == "filename"@ {
        "파일 이름"@
    } else {
        english_text(m)
    }
}

/// The text of a label in a locale.
pub open spec fn translated(locale: Locale, m: Seq<char>) -> Seq<char> {
    if locale != Locale::Korean {
        english_text(m)
    } else {
        korean_text(m)
    }
}

/// The English text of a label; empty for an unknown label.
pub fn english_message(message: &str) -> (r: &'static str)
    ensures
        r@ == english_text(message@),
{
    if str_equal(message, "Time Record") {
        "Time Record"
    } else if str_equal(message, "Time Records") {
        "Time Records"
    } else if str_equal(message, "Export") {
        "Export"
    } else if str_equal(message, "Status") {
        "Status"
    } else if str_equal(message, "field") {
        "field"
    } else if str_equal(message, "value") {
        "value"
    } else if str_equal(message, "id") {
        "id"
    } else if str_equal(message, "ID") {
        "ID"
    } else if str_equal(message, "start") {
        "start"
    } else if str_equal(message, "start time") {
        "start time"
    } else if str_equal(message, "end") {
        "end"
    } else if str_equal(message, "end time") {
        "end time"
    } else if str_equal(message, "delta") {
        "delta"
    } else if str_equal(message, "duration") {
        "duration"
    } else if str_equal(message, "tags") {
        "tags"
    } else if str_equal(message, "comments") {
        "comments"
    } else if str_equal(message, "project") {
        "project"
    } else if str_equal(message, "subtotal") {
        "subtotal"
    } else if str_equal(message, "total") {
        "total"
    } else if str_equal(message, "No active time record.") {
        "No active time record."
    } else if str_equal(message, "records exported") {
        "records exported"
    } else if str_equal(message, "filename") {
        "filename"
    } else {
        ""
    }
}

/// The text of a label in a locale.
pub fn translate(locale: Locale, message: &str) -> (r: &'static str)
    ensures
        r@ == translated(locale, message@),
{
    if locale != Locale::Korean {
        return english_message(message);
    }
    if str_equal(message, "Time Record") {
        "시간 기록"
    } else if str_equal(message, "Time Records") {
        "시간 기록"
    } else if str_equal(message, "Export") {
        "내보내기"
    } else if str_equal(message, "Status") {
        "상태"
    } else if str_equal(message, "field") {
        "필드 이름"
    } else if str_equal(message, "value") {
        "값"
    } else if str_equal(message, "id") {
        "아이디"
    } else if str_equal(message, "ID") {
        "아이디"
    } else if str_equal(message, "start") {
        "시작 시간"
    } else if str_equal(message, "start time") {
        "시작 시간"
    } else if str_equal(message, "end") {
        "종료 시간"
    } else if str_equal(message, "end time") {
        "종료 시간"
    } else if str_equal(message, "delta") {
        "지속 시간"
    } else if str_equal(message, "duration") {
        "지속 시간"
    } else if str_equal(message, "tags") {
        "태그"
    } else if str_equal(message, "comments") {
        "댓글"
    } else if str_equal(message, "project") {
        "프로젝트"
    } else if str_equal(message, "subtotal") {
        "소계"
    } else if str_equal(message, "total") {
        "총"
    } else if str_equal(message, "No active time record.") {
        "시간 기록 없음."
    } else if str_equal(message, "records exported") {
        "내보낸 기록 수"
    } else if str_equal(message, "filename") {
        "파일 이름"
    } else {
        english_message(message)
    }
}

} // verus!
