//! ANSI tables: which borders and lines a table style draws, and the tables
//! of a listing, of a record and of a message, as `tabled` draws them.

use vstd::prelude::*;

use crate::models::TimeEntry;
use crate::output::cells::{list_cells, list_header, row_cells, rows_showable};
use crate::output::layout::{
    AnsiColor, centered_title, colorize, colorized, comment_column_width, comment_width,
    translate, translated, two_column_value_width, value_width, with_centered_title,
};
use crate::output::list::ListRow;
use crate::output::{Locale, OutputOptions, TableStyle};
use crate::models::EntryView;
use crate::storage::order::views;
use tabled::builder::Builder;
use tabled::settings::object::Columns;
use tabled::settings::style::HorizontalLine;
use tabled::settings::{Modify, Panel, Style, Theme, Width};
use vstd::string::StringExecFns;

verus! {

#[verifier::external_type_specification]
#[verifier::external_body]
pub struct ExTable(tabled::Table);

/// The border sets of `tabled` that the table styles use.
#[derive(Debug, Clone, Copy, PartialEq, Eq, Structural)]
pub enum BorderSet {
    Ascii,
    Blank,
    Rounded,
    ModernRounded,
}

/// The lines drawn between rows: those of the modern (Unicode) or of the
/// ASCII border set.
#[derive(Debug, Clone, Copy, PartialEq, Eq, Structural)]
pub enum LineSet {
    Modern,
    Ascii,
}

/// The look of a table: its borders, the rows above which a line is
/// drawn, and how that line is drawn.
#[derive(Debug)]
pub struct ThemeChoice {
    pub borders: BorderSet,
    pub lines: Vec<usize>,
    pub line_set: LineSet,
}

/// The look of a table, as mathematical values.
pub struct ThemeView {
    pub borders: BorderSet,
    pub lines: Seq<usize>,
    pub line_set: LineSet,
}

impl View for ThemeChoice {
    type V = ThemeView;

    open spec fn view(&self) -> ThemeView {
        ThemeView { borders: self.borders, lines: self.lines@, line_set: self.line_set }
    }
}

/// A step that shapes a table, in the order the steps are taken.
pub enum TableStep {
    /// Borders and lines between rows.
    Look(ThemeView),
    /// A header row spanning the table.
    Header(Seq<char>),
    /// The cells of a column wrapped, keeping words, to a width.
    WrapColumn(usize, usize),
    /// The cells of a column widened to at least a width.
    WidenColumn(usize, usize),
    /// The whole table wrapped to a width.
    WrapAll(usize),
}

/// What `tabled` writes for a table of the cells `cells` (rows of texts)
/// shaped by `steps`, taken in order.
pub uninterp spec fn tabled_text(cells: Seq<Seq<Seq<char>>>, steps: Seq<TableStep>) -> Seq<char>;

/// The texts of rows of cells.
pub open spec fn grid_view(cells: Seq<Vec<String>>) -> Seq<Seq<Seq<char>>> {
    cells.map_values(|row: Vec<String>| row@.map_values(|s: String| s@))
}

/// A table being shaped: the `tabled` table, with the cells it was built
/// from and the steps taken on it.
pub struct TableDraft {
    table: tabled::Table,
    cells: Ghost<Seq<Seq<Seq<char>>>>,
    steps: Ghost<Seq<TableStep>>,
}

impl TableDraft {
    /// The cells the table was built from.
    pub closed spec fn cells(&self) -> Seq<Seq<Seq<char>>> {
        self.cells@
    }

    /// The steps taken on the table.
    pub closed spec fn steps(&self) -> Seq<TableStep> {
        self.steps@
    }
}

/// A table of the given rows of cells.
///
/// Trusted: pushes each row into a `tabled::builder::Builder` and calls
/// `build`. The contract records the cells and that no step was taken.
#[verifier::external_body]
fn new_table(cells: &Vec<Vec<String>>) -> (r: TableDraft)
    ensures
        r.cells() == grid_view(cells@),
        r.steps() == Seq::<TableStep>::empty(),
{
    let mut builder = Builder::default();
    for row in cells.iter() {
        builder.push_record(row.iter().cloned());
    }
    TableDraft { table: builder.build(), cells: Ghost(grid_view(cells@)), steps: Ghost(Seq::empty()) }
}

/// Gives the table its borders and lines.
///
/// Trusted: builds a `tabled::settings::Theme` from the border set with
/// `Theme::from_style`, inserts a line of the line set at each row with
/// `insert_horizontal_line`, and applies it with `Table::with`. The
/// contract records the step.
#[verifier::external_body]
fn apply_look(draft: &mut TableDraft, look: &ThemeChoice)
    ensures
        final(draft).cells() == old(draft).cells(),
        final(draft).steps() == old(draft).steps().push(TableStep::Look(look@)),
{
    let mut theme = match look.borders {
        BorderSet::Ascii => Theme::from_style(Style::ascii()),
        BorderSet::Blank => Theme::from_style(Style::blank()),
        BorderSet::Rounded => Theme::from_style(Style::rounded()),
        BorderSet::ModernRounded => Theme::from_style(Style::modern_rounded()),
    };
    let line = match look.line_set {
        LineSet::Modern => HorizontalLine::inherit(Style::modern()),
        LineSet::Ascii => HorizontalLine::inherit(Style::ascii()),
    };
    for row in look.lines.iter() {
        theme.insert_horizontal_line(*row, line);
    }
    draft.table.with(theme);
    draft.steps = Ghost(draft.steps@.push(TableStep::Look(look@)));
}

/// Adds a header row spanning the table.
///
/// Trusted: applies `tabled::settings::Panel::header(text)`. The contract
/// records the step.
#[verifier::external_body]
fn add_header(draft: &mut TableDraft, text: &str)
    ensures
        final(draft).cells() == old(draft).cells(),
        final(draft).steps() == old(draft).steps().push(TableStep::Header(text@)),
{
    draft.table.with(Panel::header(text));
    draft.steps = Ghost(draft.steps@.push(TableStep::Header(text@)));
}

/// Wraps the cells of a column to a width, keeping words.
///
/// Trusted: applies `Modify::new(Columns::one(column))` with
/// `Width::wrap(width).keep_words(true)`. The contract records the step.
#[verifier::external_body]
fn wrap_column(draft: &mut TableDraft, column: usize, width: usize)
    ensures
        final(draft).cells() == old(draft).cells(),
        final(draft).steps() == old(draft).steps().push(TableStep::WrapColumn(column, width)),
{
    draft.table.with(Modify::new(Columns::one(column)).with(Width::wrap(width).keep_words(true)));
    draft.steps = Ghost(draft.steps@.push(TableStep::WrapColumn(column, width)));
}

/// Widens the cells of a column to at least a width.
///
/// Trusted: applies `Modify::new(Columns::one(column))` with
/// `Width::increase(width)`. The contract records the step.
#[verifier::external_body]
fn widen_column(draft: &mut TableDraft, column: usize, width: usize)
    ensures
        final(draft).cells() == old(draft).cells(),
        final(draft).steps() == old(draft).steps().push(TableStep::WidenColumn(column, width)),
{
    draft.table.with(Modify::new(Columns::one(column)).with(Width::increase(width)));
    draft.steps = Ghost(draft.steps@.push(TableStep::WidenColumn(column, width)));
}

/// Wraps the whole table to a width.
///
/// Trusted: applies `tabled::settings::Width::wrap(width)`. The contract
/// records the step.
#[verifier::external_body]
fn wrap_table(draft: &mut TableDraft, width: usize)
    ensures
        final(draft).cells() == old(draft).cells(),
        final(draft).steps() == old(draft).steps().push(TableStep::WrapAll(width)),
{
    draft.table.with(Width::wrap(width));
    draft.steps = Ghost(draft.steps@.push(TableStep::WrapAll(width)));
}

/// The text of the table.
///
/// Trusted: calls `to_string` on the `tabled::Table`. The contract names
/// the result, a function of the cells and the steps taken.
#[verifier::external_body]
fn table_text(draft: &TableDraft) -> (r: String)
    ensures
        r@ == tabled_text(draft.cells(), draft.steps()),
{
    draft.table.to_string()
}

/// The border set of a table style.
pub open spec fn border_set_of(style: TableStyle) -> BorderSet {
    match style {
        TableStyle::Ascii | TableStyle::AsciiCondensed => BorderSet::Ascii,
        TableStyle::Plain => BorderSet::Blank,
        TableStyle::Utf8 => BorderSet::ModernRounded,
        _ => BorderSet::Rounded,
    }
}

/// The look of a table in a style, with lines asked for above the rows
/// `lines`: the style's borders; the lines only in a condensed style,
/// drawn as Unicode lines in a Unicode style and as ASCII lines otherwise.
pub open spec fn theme_choice_spec(style: TableStyle, lines: Seq<usize>) -> ThemeView {
    ThemeView {
        borders: border_set_of(style),
        lines: if style.condensed() {
            lines
        } else {
            Seq::empty()
        },
        line_set: if style.utf8() {
            LineSet::Modern
        } else {
            LineSet::Ascii
        },
    }
}

fn copy_usizes(v: &Vec<usize>) -> (r: Vec<usize>)
    ensures
        r@ == v@,
{
    let mut r: Vec<usize> = Vec::new();
    let mut i: usize = 0;
    while i < v.len()
        invariant
            i <= v@.len(),
            r@ == v@.take(i as int),
        decreases v@.len() - i,
    {
        r.push(v[i]);
        assert(v@.take(i + 1) =~= v@.take(i as int).push(v@[i as int]));
        i = i + 1;
    }
    assert(v@.take(i as int) =~= v@);
    r
}

/// The look of a table in `style`, with lines asked for above the rows
/// `lines`, as `theme_choice_spec` says.
pub fn theme_choice(style: TableStyle, lines: &Vec<usize>) -> (r: ThemeChoice)
    ensures
        r@ == theme_choice_spec(style, lines@),
{
    let borders = match style {
        TableStyle::Ascii | TableStyle::AsciiCondensed => BorderSet::Ascii,
        TableStyle::Plain => BorderSet::Blank,
        TableStyle::Utf8 => BorderSet::ModernRounded,
        _ => BorderSet::Rounded,
    };
    let chosen = if style.is_condensed() {
        copy_usizes(lines)
    } else {
        Vec::new()
    };
    let line_set = if style.is_utf8() {
        LineSet::Modern
    } else {
        LineSet::Ascii
    };
    let r = ThemeChoice { borders, lines: chosen, line_set };
    assert(r@.lines =~= theme_choice_spec(style, lines@).lines);
    r
}

/// The width a whole table is wrapped to: at least one column.
pub open spec fn at_least_one(width: usize) -> usize {
    if width == 0 {
        1
    } else {
        width
    }
}

/// The cells of a listing: the header, then the cells of each row.
pub open spec fn list_grid(
    locale: Locale,
    entries: Seq<EntryView>,
    rows: Seq<ListRow>,
    deltas: Seq<Seq<char>>,
) -> Seq<Seq<Seq<char>>> {
    seq![list_header(locale)] + Seq::new(
        rows.len(),
        |k: int| row_cells(locale, entries, rows[k], deltas[k]),
    )
}

/// The steps that shape a listing `width` columns wide: the style's look
/// with lines above `lines`; the project, comments and tags columns
/// wrapped to 12, to the comments width and to 10; the whole table
/// wrapped to the width.
pub open spec fn list_steps(style: TableStyle, lines: Seq<usize>, width: usize) -> Seq<TableStep> {
    let w = at_least_one(width);
    seq![
        TableStep::Look(theme_choice_spec(style, lines)),
        TableStep::WrapColumn(4, 12),
        TableStep::WrapColumn(5, comment_width(w as int) as usize),
        TableStep::WrapColumn(6, 10),
        TableStep::WrapAll(w),
    ]
}

/// Draws a listing `width` columns wide: the rows `rows` of the entries
/// (as `list_layout` lays them out) with `deltas` the texts of their
/// durations, lines above the rows `lines`, under the title
/// "Time Records" centered in italics.
pub fn render_list(
    options: OutputOptions,
    entries: &[TimeEntry],
    rows: &Vec<ListRow>,
    lines: &Vec<usize>,
    deltas: &Vec<String>,
    width: usize,
) -> (r: String)
    requires
        deltas@.len() == rows@.len(),
        rows_showable(views(entries@), rows@),
    ensures
        r@ == centered_title(
            tabled_text(
                list_grid(
                    options.locale,
                    views(entries@),
                    rows@,
                    deltas@.map_values(|s: String| s@),
                ),
                list_steps(options.table_style, lines@, width),
            ),
            translated(options.locale, "Time Records"@),
        ),
{
    let cells = list_cells(options.locale, entries, rows, deltas);
    assert(grid_view(cells@) =~= list_grid(
        options.locale,
        views(entries@),
        rows@,
        deltas@.map_values(|s: String| s@),
    )) by {
        assert forall|k: int| 0 <= k < rows@.len() implies grid_view(cells@)[k + 1] == row_cells(
            options.locale,
            views(entries@),
            rows@[k],
            deltas@[k]@,
        ) by {
            assert(cells@[k + 1]@.map_values(|s: String| s@) == row_cells(
                options.locale,
                views(entries@),
                rows@[k],
                deltas@[k]@,
            ));
        }
    }
    let look = theme_choice(options.table_style, lines);
    let w: usize = if width == 0 {
        1
    } else {
        width
    };
    let mut draft = new_table(&cells);
    apply_look(&mut draft, &look);
    wrap_column(&mut draft, 4, 12);
    wrap_column(&mut draft, 5, comment_column_width(w));
    wrap_column(&mut draft, 6, 10);
    wrap_table(&mut draft, w);
    assert(draft.steps() =~= list_steps(options.table_style, lines@, width));
    with_centered_title(table_text(&draft), translate(options.locale, "Time Records"))
}

/// The cells of a two-column table.
pub open spec fn pair_grid(rows: Seq<(Seq<char>, Seq<char>)>) -> Seq<Seq<Seq<char>>> {
    Seq::new(rows.len(), |k: int| seq![rows[k].0, rows[k].1])
}

/// The width the label column's text is wrapped and widened to: the
/// label width less the padding, at least one.
pub open spec fn label_text_width(label_width: usize) -> usize {
    if label_width >= 3 {
        (label_width - 2) as usize
    } else {
        1
    }
}

/// The steps that shape a two-column table `width` columns wide whose
/// label column is `label_width` wide: the style's look with a line under
/// the header; the labels wrapped and widened to the label text width; the
/// values wrapped to what is left; the whole table wrapped to the width.
pub open spec fn two_column_steps(style: TableStyle, label_width: usize, width: usize) -> Seq<
    TableStep,
> {
    seq![
        TableStep::Look(theme_choice_spec(style, seq![1usize])),
        TableStep::WrapColumn(0, label_text_width(label_width)),
        TableStep::WidenColumn(0, label_text_width(label_width)),
        TableStep::WrapColumn(1, value_width(width as int, label_width as int) as usize),
        TableStep::WrapAll(width),
    ]
}

/// Draws a two-column table `width` columns wide from `rows` (the header
/// first), under `title` translated, centered in italics.
pub fn render_two_column(
    options: OutputOptions,
    title: &str,
    rows: &Vec<(String, String)>,
    label_width: usize,
    width: usize,
) -> (r: String)
    ensures
        r@ == centered_title(
            tabled_text(
                pair_grid(rows@.map_values(|p: (String, String)| (p.0@, p.1@))),
                two_column_steps(options.table_style, label_width, width),
            ),
            translated(options.locale, title@),
        ),
{
    let ghost pairs = rows@.map_values(|p: (String, String)| (p.0@, p.1@));
    let mut cells: Vec<Vec<String>> = Vec::new();
    let mut i: usize = 0;
    while i < rows.len()
        invariant
            i <= rows@.len(),
            pairs == rows@.map_values(|p: (String, String)| (p.0@, p.1@)),
            grid_view(cells@) =~= pair_grid(pairs).take(i as int),
        decreases rows@.len() - i,
    {
        let mut row: Vec<String> = Vec::new();
        row.push(String::from_str(rows[i].0.as_str()));
        row.push(String::from_str(rows[i].1.as_str()));
        assert(row@.map_values(|s: String| s@) =~= seq![pairs[i as int].0, pairs[i as int].1]);
        let ghost before = cells@;
        let ghost row_view = row@.map_values(|s: String| s@);
        cells.push(row);
        assert(grid_view(cells@) =~= grid_view(before).push(row_view));
        assert(pair_grid(pairs).take(i + 1) =~= pair_grid(pairs).take(i as int).push(
            pair_grid(pairs)[i as int],
        ));
        assert(grid_view(cells@) =~= pair_grid(pairs).take(i + 1));
        i = i + 1;
    }
    assert(pair_grid(pairs).take(i as int) =~= pair_grid(pairs));
    let one: Vec<usize> = vec![1];
    let look = theme_choice(options.table_style, &one);
    let label_text: usize = if label_width >= 3 {
        label_width - 2
    } else {
        1
    };
    let mut draft = new_table(&cells);
    apply_look(&mut draft, &look);
    wrap_column(&mut draft, 0, label_text);
    widen_column(&mut draft, 0, label_text);
    wrap_column(&mut draft, 1, two_column_value_width(width, label_width));
    wrap_table(&mut draft, width);
    assert(one@ =~= seq![1usize]);
    assert(draft.steps() =~= two_column_steps(options.table_style, label_width, width));
    with_centered_title(table_text(&draft), translate(options.locale, title))
}

/// The width a message is wrapped to: the table width less borders and
/// padding, at least one.
pub open spec fn message_width(width: usize) -> usize {
    if width >= 5 {
        (width - 4) as usize
    } else {
        1
    }
}

/// The steps that shape a message table `width` columns wide: the style's
/// look without lines; the title, translated, in white as a header; the
/// message wrapped to the message width; the whole table wrapped.
pub open spec fn message_steps(
    style: TableStyle,
    locale: Locale,
    title: Seq<char>,
    width: usize,
) -> Seq<TableStep> {
    seq![
        TableStep::Look(theme_choice_spec(style, Seq::empty())),
        TableStep::Header(colorized(translated(locale, title), AnsiColor::White)),
        TableStep::WrapColumn(0, message_width(width)),
        TableStep::WrapAll(width),
    ]
}

/// Draws a table `width` columns wide that holds `message` in `color`,
/// headed by `title` translated.
pub fn render_message(
    options: OutputOptions,
    title: &str,
    message: &str,
    color: AnsiColor,
    width: usize,
) -> (r: String)
    ensures
        r@ == tabled_text(
            seq![seq![colorized(message@, color)]],
            message_steps(options.table_style, options.locale, title@, width),
        ),
{
    let mut row: Vec<String> = Vec::new();
    row.push(colorize(message, color));
    assert(row@.map_values(|s: String| s@) =~= seq![colorized(message@, color)]);
    let ghost row_view = row@.map_values(|s: String| s@);
    let mut cells: Vec<Vec<String>> = Vec::new();
    cells.push(row);
    assert(grid_view(cells@)[0] == row_view);
    assert(grid_view(cells@) =~= seq![seq![colorized(message@, color)]]);
    let none: Vec<usize> = Vec::new();
    let look = theme_choice(options.table_style, &none);
    let message_text: usize = if width >= 5 {
        width - 4
    } else {
        1
    };
    let mut draft = new_table(&cells);
    apply_look(&mut draft, &look);
    add_header(&mut draft, colorize(translate(options.locale, title), AnsiColor::White).as_str());
    wrap_column(&mut draft, 0, message_text);
    wrap_table(&mut draft, width);
    assert(none@ =~= Seq::<usize>::empty());
    assert(draft.steps() =~= message_steps(options.table_style, options.locale, title@, width));
    table_text(&draft)
}

} // verus!
