//! The panes of the editor.

use vstd::prelude::*;

use crate::path::FsPath;
use crate::spans;
use crate::syntax;
use crate::syntax::SyntaxHighlighter;
use crate::text;
use crate::ui::area;
use crate::ui::area::Constraint;
use crate::ui::area::Rect;
use crate::ui::line;
use crate::ui::line::LspDocumentHighlight;
use crate::ui::line::SelectionRange;
use crate::ui::line::Span;
use crate::ui::list;
use crate::ui::op;
use crate::ui::op::DrawOp;
use crate::ui::op::LineView;
use crate::ui::op::OpView;
use crate::ui::op::StyledLine;
use crate::ui::status;
use crate::ui::style;
use crate::ui::style::ProblemSeverity;
use crate::ui::style::Style;
use crate::ui::tabs;
use crate::ui::tabs::TabRow;
use crate::ui::terminal;

verus! {

/// A row of a pane: a line, or the part of a line that is wrapped, from a column
/// on.
#[derive(Debug, Clone, Copy, PartialEq, Eq, Structural)]
pub struct VisualRow {
    pub line: usize,
    pub start_col: usize,
    pub continuation: bool,
}

/// What is marked in a line.
#[derive(Debug, Clone, PartialEq, Eq)]
pub struct LineMarks {
    pub bookmarked: bool,
    pub folded: bool,
    /// The last line of the block that begins here.
    pub fold_end: Option<usize>,
    pub problem: Option<ProblemSeverity>,
    pub highlights: Vec<LspDocumentHighlight>,
}

#[verifier::ext_equal]
pub struct MarksView {
    pub bookmarked: bool,
    pub folded: bool,
    pub fold_end: Option<usize>,
    pub problem: Option<ProblemSeverity>,
    pub highlights: Seq<LspDocumentHighlight>,
}

impl View for LineMarks {
    type V = MarksView;

    open spec fn view(&self) -> MarksView {
        MarksView {
            bookmarked: self.bookmarked,
            folded: self.folded,
            fold_end: self.fold_end,
            problem: self.problem,
            highlights: self.highlights@,
        }
    }
}

/// A pane of the editor.
#[derive(Debug, Clone, PartialEq, Eq)]
pub struct EditorPane {
    /// The number of the pane, counted from zero.
    pub number: usize,
    /// There are two panes.
    pub split: bool,
    /// The pane takes the keys.
    pub focused: bool,
    pub word_wrap: bool,
    /// The text that is searched for.
    pub needle: Option<String>,
    pub path: FsPath,
    /// The first line of the file on disk, where it can be read.
    pub first_line: Option<String>,
    pub lines: Vec<String>,
    pub rows: Vec<VisualRow>,
    pub scroll: usize,
    pub horizontal_scroll: usize,
    pub selections: Vec<SelectionRange>,
    /// All cursors, and the place of the main one.
    pub cursors: Vec<(usize, usize)>,
    pub cursor_line: usize,
    pub cursor_col: usize,
    /// What is marked in the lines; nothing is marked in the lines behind the
    /// last one.
    pub marks: Vec<LineMarks>,
}

impl EditorPane {
    /// The rows are rows of lines that there are.
    pub open spec fn wf(self) -> bool {
        forall|i: int|
            0 <= i < self.rows@.len() ==> (#[trigger] self.rows@[i]).line < self.lines@.len()
    }

    /// What is marked in a line.
    pub open spec fn marks_of(self, line: int) -> MarksView {
        if line < self.marks@.len() {
            self.marks@[line]@
        } else {
            MarksView {
                bookmarked: false,
                folded: false,
                fold_end: None,
                problem: None,
                highlights: Seq::empty(),
            }
        }
    }
}

/// The columns that the numbers of so many lines take, at least three.
pub open spec fn number_width(line_count: nat) -> nat {
    let digits = text::decimal(
        if line_count == 0 {
            1
        } else {
            line_count
        },
    ).len();
    if digits < 3 {
        3
    } else {
        digits
    }
}

proof fn lemma_decimal_len(n: nat)
    ensures
        text::decimal(n).len() <= n / 10 + 1,
    decreases n,
{
    if n >= 10 {
        lemma_decimal_len(n / 10);
    }
}

fn line_number_width(line_count: usize) -> (width: usize)
    ensures
        width == number_width(line_count as nat),
        width <= usize::MAX - 3,
{
    let shown: usize = if line_count == 0 {
        1
    } else {
        line_count
    };
    proof {
        lemma_decimal_len(shown as nat);
    }
    let digits: usize = text::count(&text::decimal_of(shown as u64));
    if digits < 3 {
        3
    } else {
        digits
    }
}

/// The columns left of the text: a bookmark, the number of the line, a space and
/// a mark.
pub fn editor_gutter_width(line_count: usize) -> (width: usize)
    ensures
        width == number_width(line_count as nat) + 3,
{
    line_number_width(line_count) + 3
}

/// The columns for the text in an area with a border.
pub open spec fn code_columns(area: Rect, line_count: nat) -> nat {
    let gutter = number_width(line_count) + 3;
    let width = area.within_border().width;
    if width > gutter {
        (width - gutter) as nat
    } else {
        0
    }
}

/// The columns for the text in an area with a border.
pub fn code_width(area: Rect, line_count: usize) -> (width: usize)
    requires
        area.wf(),
    ensures
        width == code_columns(area, line_count as nat),
{
    (area.inner().width as usize).saturating_sub(editor_gutter_width(line_count))
}

/// The length of the longest of several lines.
pub open spec fn longest(lines: Seq<String>) -> nat
    decreases lines.len(),
{
    if lines.len() == 0 {
        0
    } else {
        let before = longest(lines.drop_last());
        if lines.last()@.len() > before {
            lines.last()@.len()
        } else {
            before
        }
    }
}

/// How far lines can be scrolled to the left: until the end of the longest one
/// is in view.
pub open spec fn scroll_limit(lines: Seq<String>, columns: nat) -> nat {
    if columns == 0 || longest(lines) < columns {
        0
    } else {
        (longest(lines) - columns) as nat
    }
}

pub fn max_horizontal_scroll(lines: &Vec<String>, columns: usize) -> (limit: usize)
    ensures
        limit == scroll_limit(lines@, columns as nat),
{
    if columns == 0 {
        return 0;
    }
    let mut found: usize = 0;
    for i in 0..lines.len()
        invariant
            found == longest(lines@.take(i as int)),
    {
        proof {
            assert(lines@.take(i + 1).drop_last() =~= lines@.take(i as int));
        }
        let own: usize = text::count(&lines[i]);
        if own > found {
            found = own;
        }
    }
    proof {
        assert(lines@.take(lines@.len() as int) =~= lines@);
    }
    found.saturating_sub(columns)
}

/// The first line of several rows, and the line behind the last one.
pub open spec fn lines_of_rows(rows: Seq<VisualRow>) -> (int, int)
    decreases rows.len(),
{
    if rows.len() == 0 {
        (0, 0)
    } else {
        let (start, end) = lines_of_rows(rows.drop_last());
        let line = rows.last().line as int;
        if rows.len() == 1 {
            (line, line + 1)
        } else {
            (
                if line < start {
                    line
                } else {
                    start
                },
                if line + 1 > end {
                    line + 1
                } else {
                    end
                },
            )
        }
    }
}

proof fn lemma_lines_of_rows(rows: Seq<VisualRow>, line_count: nat)
    requires
        forall|i: int| 0 <= i < rows.len() ==> (#[trigger] rows[i]).line < line_count,
    ensures
        0 <= lines_of_rows(rows).0 <= lines_of_rows(rows).1 <= line_count,
    decreases rows.len(),
{
    if rows.len() > 0 {
        let last = rows[rows.len() - 1];
        lemma_lines_of_rows(rows.drop_last(), line_count);
    }
}

/// What a pane shows: the area of its text, the columns for the text, the first
/// row and the number of rows in view, the column that the text is scrolled to,
/// and the lines that the rows belong to.
#[derive(Debug, Clone, Copy, PartialEq, Eq)]
pub struct PanePlan {
    pub inner: Rect,
    pub columns: usize,
    pub first: usize,
    pub count: u16,
    pub horizontal_scroll: usize,
    pub first_line: usize,
    pub end_line: usize,
}

/// Whether a plan is the one for a pane in an area.
pub open spec fn is_plan(pane: EditorPane, area: Rect, plan: PanePlan) -> bool {
    let inner = area.within_border();
    let len = pane.rows@.len();
    &&& plan.inner == inner
    &&& plan.columns == code_columns(area, pane.lines@.len())
    &&& plan.first == list::first_row(len, inner.height as nat, pane.scroll as nat)
    &&& plan.count == list::shown_rows(len, inner.height as nat, pane.scroll as nat)
    &&& plan.horizontal_scroll == if pane.word_wrap {
        0
    } else {
        let limit = scroll_limit(pane.lines@, plan.columns as nat);
        if pane.horizontal_scroll < limit {
            pane.horizontal_scroll as nat
        } else {
            limit
        }
    }
    &&& (plan.first_line as int, plan.end_line as int) == lines_of_rows(
        pane.rows@.subrange(plan.first as int, plan.first + plan.count),
    )
}

/// What a pane shows in an area.
pub fn plan_pane(pane: &EditorPane, area: Rect) -> (plan: PanePlan)
    requires
        area.wf(),
        pane.wf(),
    ensures
        is_plan(*pane, area, plan),
{
    let inner = area.inner();
    let columns: usize = code_width(area, pane.lines.len());
    let len: usize = pane.rows.len();
    let line_count: usize = pane.lines.len();
    let (first, count) = list::window(len, inner.height, pane.scroll);
    let horizontal_scroll: usize = if pane.word_wrap {
        0
    } else {
        let limit: usize = max_horizontal_scroll(&pane.lines, columns);
        if pane.horizontal_scroll < limit {
            pane.horizontal_scroll
        } else {
            limit
        }
    };
    let ghost shown = pane.rows@.subrange(first as int, first + count);
    let mut first_line: usize = 0;
    let mut end_line: usize = 0;
    for k in 0..count
        invariant
            pane.wf(),
            len == pane.rows@.len(),
            line_count == pane.lines@.len(),
            first + count <= len,
            shown == pane.rows@.subrange(first as int, first + count),
            end_line <= line_count,
            (first_line as int, end_line as int) == lines_of_rows(shown.take(k as int)),
    {
        proof {
            assert(shown.take(k + 1).drop_last() =~= shown.take(k as int));
        }
        let line: usize = pane.rows[first + k as usize].line;
        if k == 0 {
            first_line = line;
            end_line = line + 1;
        } else {
            if line < first_line {
                first_line = line;
            }
            if line + 1 > end_line {
                end_line = line + 1;
            }
        }
    }
    proof {
        assert(shown.take(count as int) =~= shown);
    }
    PanePlan { inner, columns, first, count, horizontal_scroll, first_line, end_line }
}

/// The text of a line as it is shown before it is cut to the pane: selections
/// first, or else, in the pane that takes the keys, cursors, or else what was
/// found, or else where the symbol under the cursor is used. A folded line says
/// how many lines are folded.
pub open spec fn code_of(
    pane: EditorPane,
    line: usize,
    colors: Seq<(Seq<char>, Style)>,
) -> Seq<(Seq<char>, Style)> {
    let source = pane.lines@[line as int]@;
    let marks = pane.marks_of(line as int);
    let selected = line::selected_ranges(pane.selections@, line, source.len());
    let cursors = line::cursor_columns(pane.cursors@, line, source.len());
    let found = match pane.needle {
        Some(needle) => if needle@.len() == 0 {
            None
        } else {
            line::with_search(
                source,
                needle@,
                if pane.focused && line == pane.cursor_line {
                    Some(pane.cursor_col)
                } else {
                    None
                },
            )
        },
        None => None,
    };
    let used = line::with_highlights(colors, marks.highlights);
    let shown = if selected.len() > 0 {
        line::with_selection(source, selected)
    } else if pane.focused && cursors.len() > 0 {
        line::with_cursors(used, cursors)
    } else {
        match found {
            Some(spans) => spans,
            None => used,
        }
    };
    match marks.fold_end {
        Some(end) if marks.folded => shown.push(
            (
                "  ... "@ + text::decimal(
                    if end > line {
                        (end - line) as nat
                    } else {
                        0
                    },
                ) + " folded line(s)"@,
                style::plain().fg(style::muted()),
            ),
        ),
        _ => shown,
    }
}

fn found_spans(pane: &EditorPane, line: usize) -> (found: Option<Vec<Span>>)
    requires
        line < pane.lines@.len(),
    ensures
        (match found {
            Some(spans) => Some(line::spans_view(spans@)),
            None => None,
        }) == match pane.needle {
            Some(needle) => if needle@.len() == 0 {
                None
            } else {
                line::with_search(
                    pane.lines@[line as int]@,
                    needle@,
                    if pane.focused && line == pane.cursor_line {
                        Some(pane.cursor_col)
                    } else {
                        None
                    },
                )
            },
            None => None,
        },
{
    match &pane.needle {
        Some(needle) => {
            if text::count(needle) == 0 {
                return None;
            }
            let cursor = if pane.focused && line == pane.cursor_line {
                Some(pane.cursor_col)
            } else {
                None
            };
            line::search_line_spans(&pane.lines[line], needle, cursor)
        },
        None => None,
    }
}

fn marked_spans(pane: &EditorPane, line: usize, colors: &Vec<Span>) -> (out: Vec<Span>)
    requires
        line::total_len(line::spans_view(colors@)) <= usize::MAX,
    ensures
        line::spans_view(out@) == line::with_highlights(
            line::spans_view(colors@),
            pane.marks_of(line as int).highlights,
        ),
        line::total_len(line::spans_view(out@)) <= usize::MAX,
{
    proof {
        let base = line::spans_view(colors@);
        let highlights = pane.marks_of(line as int).highlights;
        line::restyling_keeps_the_text(base, line::highlighting(highlights));
        line::lemma_text_len(base);
        line::lemma_text_len(line::restyled(base, line::highlighting(highlights)));
    }
    if line < pane.marks.len() {
        line::document_highlight_line_spans(colors, &pane.marks[line].highlights)
    } else {
        line::copy_spans(colors)
    }
}

/// The text of a line as it is shown before it is cut to the pane.
pub fn code_spans(pane: &EditorPane, line: usize, colors: &Vec<Span>) -> (out: Vec<Span>)
    requires
        line < pane.lines@.len(),
        line::total_len(line::spans_view(colors@)) <= usize::MAX,
    ensures
        line::spans_view(out@) == code_of(*pane, line, line::spans_view(colors@)),
{
    let source = &pane.lines[line];
    let selected = line::line_selection_ranges(&pane.selections, line, source);
    let cursors = line::line_cursor_cols(&pane.cursors, line, source);
    let mut out = if selected.len() > 0 {
        line::selection_line_spans(source, &selected)
    } else if pane.focused && cursors.len() > 0 {
        let used = marked_spans(pane, line, colors);
        line::cursor_overlay_line_spans(&used, &cursors)
    } else {
        match found_spans(pane, line) {
            Some(spans) => spans,
            None => marked_spans(pane, line, colors),
        }
    };
    if line < pane.marks.len() && pane.marks[line].folded {
        if let Some(end) = pane.marks[line].fold_end {
            let mut folded = "  ... ".to_owned();
            status::push_number(&mut folded, end.saturating_sub(line));
            folded.append(" folded line(s)");
            line::push_span(&mut out, &folded, style::plain().fg(style::muted()));
        }
    }
    out
}

/// A number at the right end of so many columns.
pub open spec fn right_aligned(digits: Seq<char>, width: nat) -> Seq<char> {
    if digits.len() < width {
        line::spaces((width - digits.len()) as nat) + digits
    } else {
        digits
    }
}

/// The columns left of the text of a row.
pub open spec fn gutter(row: VisualRow, marks: MarksView, width: nat) -> Seq<(Seq<char>, Style)> {
    let muted = style::plain().fg(style::muted());
    let accent = style::plain().fg(style::accent());
    let bookmark = !row.continuation && marks.bookmarked;
    let number = if row.continuation {
        line::spaces(width)
    } else {
        right_aligned(text::decimal((row.line + 1) as nat), width)
    };
    let number_style = match marks.problem {
        Some(severity) => style::problem_gutter_style(severity),
        None => muted,
    };
    let mark = if row.continuation {
        ">"@
    } else {
        match marks.problem {
            Some(severity) => style::marker_text(severity),
            None => if marks.folded {
                "+"@
            } else if marks.fold_end is Some {
                "-"@
            } else {
                " "@
            },
        }
    };
    let mark_style = match marks.problem {
        Some(severity) => style::problem_gutter_style(severity),
        None => if marks.folded {
            accent
        } else {
            muted
        },
    };
    line::no_spans().push(
        if bookmark {
            ("B"@, accent)
        } else {
            (" "@, muted)
        },
    ).push((number + " "@, number_style)).push((mark, mark_style))
}

/// The number of a row in its columns.
fn row_number(row: VisualRow, width: usize) -> (out: String)
    ensures
        out@ == (if row.continuation {
            line::spaces(width as nat)
        } else {
            right_aligned(text::decimal((row.line + 1) as nat), width as nat)
        }) + " "@,
{
    let mut out = if row.continuation {
        line::space_text(width)
    } else {
        let mut digits = String::new();
        status::push_ordinal(&mut digits, row.line);
        proof {
            assert(digits@ =~= text::decimal((row.line + 1) as nat));
        }
        let len: usize = text::count(&digits);
        if len < width {
            let mut padded = line::space_text(width - len);
            padded.append(&digits);
            padded
        } else {
            digits
        }
    };
    out.append(" ");
    out
}

fn no_marks() -> (marks: LineMarks)
    ensures
        marks@ == (MarksView {
            bookmarked: false,
            folded: false,
            fold_end: None,
            problem: None,
            highlights: Seq::empty(),
        }),
{
    let marks = LineMarks {
        bookmarked: false,
        folded: false,
        fold_end: None,
        problem: None,
        highlights: Vec::new(),
    };
    proof {
        assert(marks.highlights@ =~= Seq::<LspDocumentHighlight>::empty());
    }
    marks
}

/// The columns left of the text of a row.
pub fn gutter_spans(row: VisualRow, marks: &LineMarks, width: usize) -> (out: Vec<Span>)
    ensures
        line::spans_view(out@) == gutter(row, marks@, width as nat),
{
    let muted = style::plain().fg(style::muted());
    let accent = style::plain().fg(style::accent());
    let mut out: Vec<Span> = Vec::new();
    proof {
        assert(line::spans_view(out@) =~= line::no_spans());
    }
    if !row.continuation && marks.bookmarked {
        line::push_span(&mut out, "B", accent);
    } else {
        line::push_span(&mut out, " ", muted);
    }
    let number_style = match marks.problem {
        Some(severity) => style::problem_gutter_style(severity),
        None => muted,
    };
    let number = row_number(row, width);
    line::push_span(&mut out, &number, number_style);
    let mark = if row.continuation {
        ">"
    } else {
        match marks.problem {
            Some(severity) => style::problem_marker(severity),
            None => if marks.folded {
                "+"
            } else if marks.fold_end.is_some() {
                "-"
            } else {
                " "
            },
        }
    };
    let mark_style = match marks.problem {
        Some(severity) => style::problem_gutter_style(severity),
        None => if marks.folded {
            accent
        } else {
            muted
        },
    };
    line::push_span(&mut out, mark, mark_style);
    out
}

/// The colors of the text of a line: those that are given for it, or none.
pub open spec fn colors_of(
    pane: EditorPane,
    plan: PanePlan,
    highlighted: Seq<Vec<Span>>,
    line: int,
) -> Seq<(Seq<char>, Style)> {
    let at = if line > plan.first_line {
        line - plan.first_line
    } else {
        0
    };
    if at < highlighted.len() {
        line::spans_view(highlighted[at]@)
    } else {
        line::no_spans().push((pane.lines@[line]@, style::plain()))
    }
}

/// A row of a pane: the columns left of the text, and the part of the text that
/// is in view.
pub open spec fn row_line(
    pane: EditorPane,
    plan: PanePlan,
    highlighted: Seq<Vec<Span>>,
    row: VisualRow,
) -> LineView {
    let marks = pane.marks_of(row.line as int);
    let code = code_of(pane, row.line, colors_of(pane, plan, highlighted, row.line as int));
    let start = if pane.word_wrap {
        row.start_col
    } else {
        plan.horizontal_scroll
    };
    LineView {
        spans: gutter(row, marks, number_width(pane.lines@.len())) + line::cropped(
            code,
            start as nat,
            plan.columns as nat,
        ),
        style: match marks.problem {
            Some(severity) => style::problem_line_style(severity),
            None => style::plain(),
        },
    }
}

/// The colors of the text of a line.
fn line_colors(pane: &EditorPane, plan: &PanePlan, highlighted: &Vec<Vec<Span>>, line: usize) -> (out:
    Vec<Span>)
    requires
        line < pane.lines@.len(),
        forall|k: int|
            0 <= k < highlighted@.len() ==> line::total_len(
                line::spans_view((#[trigger] highlighted@[k])@),
            ) <= usize::MAX,
    ensures
        line::spans_view(out@) == colors_of(*pane, *plan, highlighted@, line as int),
        line::total_len(line::spans_view(out@)) <= usize::MAX,
{
    let at: usize = line.saturating_sub(plan.first_line);
    if at < highlighted.len() {
        return line::copy_spans(&highlighted[at]);
    }
    let mut out: Vec<Span> = Vec::new();
    proof {
        assert(line::spans_view(out@) =~= line::no_spans());
    }
    let source = &pane.lines[line];
    let len: usize = text::count(source);
    line::push_span(&mut out, source, style::plain());
    proof {
        let view = line::spans_view(out@);
        assert(view.drop_last() =~= line::no_spans());
        assert(line::total_len(line::no_spans()) == 0);
        assert(line::total_len(view) == len);
    }
    out
}

/// A row of a pane.
pub fn draw_row(
    pane: &EditorPane,
    plan: &PanePlan,
    highlighted: &Vec<Vec<Span>>,
    row: VisualRow,
) -> (out: StyledLine)
    requires
        row.line < pane.lines@.len(),
        forall|k: int|
            0 <= k < highlighted@.len() ==> line::total_len(
                line::spans_view((#[trigger] highlighted@[k])@),
            ) <= usize::MAX,
    ensures
        out@ == row_line(*pane, *plan, highlighted@, row),
{
    let none = no_marks();
    let marks = if row.line < pane.marks.len() {
        &pane.marks[row.line]
    } else {
        &none
    };
    let mut spans = gutter_spans(row, marks, line_number_width(pane.lines.len()));
    let colors = line_colors(pane, plan, highlighted, row.line);
    let code = code_spans(pane, row.line, &colors);
    let start: usize = if pane.word_wrap {
        row.start_col
    } else {
        plan.horizontal_scroll
    };
    let mut shown = line::crop_spans_by_chars(&code, start, plan.columns);
    let ghost left = line::spans_view(spans@);
    let ghost right = line::spans_view(shown@);
    spans.append(&mut shown);
    proof {
        assert(line::spans_view(spans@) =~= left + right);
    }
    let style = match marks.problem {
        Some(severity) => style::problem_line_style(severity),
        None => style::plain(),
    };
    StyledLine { spans, style }
}

/// The title of a pane.
pub open spec fn pane_title(pane: EditorPane) -> Seq<char> {
    if pane.split {
        " Editor "@ + text::decimal((pane.number + 1) as nat)
            + "  Ctrl-S save  Ctrl-F find  Ctrl-H replace  Ctrl-\\ split "@
    } else {
        " Editor  Ctrl-S save  Ctrl-F find  Ctrl-H replace  Alt-[ fold  Alt-0 fold all  Alt-] unfold "@
    }
}

pub fn pane_title_text(pane: &EditorPane) -> (out: String)
    ensures
        out@ == pane_title(*pane),
{
    if pane.split {
        let mut out = " Editor ".to_owned();
        status::push_ordinal(&mut out, pane.number);
        out.append("  Ctrl-S save  Ctrl-F find  Ctrl-H replace  Ctrl-\\ split ");
        out
    } else {
        " Editor  Ctrl-S save  Ctrl-F find  Ctrl-H replace  Alt-[ fold  Alt-0 fold all  Alt-] unfold ".to_owned()
    }
}

/// The steps that draw a pane, with the given colors of its text. In an area
/// without room for text nothing but the border is drawn.
pub open spec fn pane_ops(
    pane: EditorPane,
    area: Rect,
    plan: PanePlan,
    highlighted: Seq<Vec<Span>>,
) -> Seq<OpView> {
    let frame = op::no_ops().push(
        (OpView::Panel {
            area,
            title: pane_title(pane),
            border: style::border_style(pane.focused),
        }),
    );
    if plan.inner.width == 0 || plan.inner.height == 0 {
        frame
    } else {
        frame.push(
            (OpView::Lines {
                area: plan.inner,
                lines: Seq::new(
                    plan.count as nat,
                    |k: int| row_line(pane, plan, highlighted, pane.rows@[plan.first + k]),
                ),
                style: style::body_style(),
            }),
        )
    }
}

/// Draws a pane, with the given colors of its text.
pub fn draw_highlighted_pane(
    pane: &EditorPane,
    area: Rect,
    plan: &PanePlan,
    highlighted: &Vec<Vec<Span>>,
) -> (ops: Vec<DrawOp>)
    requires
        pane.wf(),
        plan.first + plan.count <= pane.rows@.len(),
        forall|k: int|
            0 <= k < highlighted@.len() ==> line::total_len(
                line::spans_view((#[trigger] highlighted@[k])@),
            ) <= usize::MAX,
    ensures
        op::ops_view(ops@) == pane_ops(*pane, area, *plan, highlighted@),
{
    let mut ops = op::none();
    let title = pane_title_text(pane);
    op::push(&mut ops, DrawOp::Panel { area, title, border: style::border_style(pane.focused) });
    if plan.inner.width == 0 || plan.inner.height == 0 {
        return ops;
    }
    let len: usize = pane.rows.len();
    let mut lines: Vec<StyledLine> = Vec::new();
    for k in 0..plan.count
        invariant
            pane.wf(),
            len == pane.rows@.len(),
            plan.first + plan.count <= len,
            forall|i: int|
                0 <= i < highlighted@.len() ==> line::total_len(
                    line::spans_view((#[trigger] highlighted@[i])@),
                ) <= usize::MAX,
            lines@.len() == k,
            forall|j: int|
                0 <= j < k ==> (#[trigger] lines@[j])@ == row_line(
                    *pane,
                    *plan,
                    highlighted@,
                    pane.rows@[plan.first + j],
                ),
    {
        let row = pane.rows[plan.first + k as usize];
        lines.push(draw_row(pane, plan, highlighted, row));
    }
    proof {
        assert(op::lines_view(lines@) =~= Seq::new(
            plan.count as nat,
            |k: int| row_line(*pane, *plan, highlighted@, pane.rows@[plan.first + k]),
        ));
    }
    op::push(&mut ops, DrawOp::Lines { area: plan.inner, lines, style: style::body_style() });
    ops
}

/// The colors that a highlighter gives the lines of a pane that are in view.
pub open spec fn are_colors(
    highlighter: SyntaxHighlighter,
    pane: EditorPane,
    plan: PanePlan,
    highlighted: Seq<Vec<Span>>,
) -> bool {
    let syntax = syntax::syntax_of_file(
        highlighter.syntaxes(),
        pane.path@,
        text::maybe(pane.first_line),
    );
    syntax::spans_of_lines(highlighted) == highlighter.shown_lines(
        syntax,
        text::texts(pane.lines@),
        plan.first_line as nat,
        plan.end_line as nat,
    )
}

/// Draws a pane. Says what the pane shows, and the colors of its lines.
pub fn draw_editor_pane(pane: &EditorPane, highlighter: &SyntaxHighlighter, area: Rect) -> (drawn: (
    PanePlan,
    Vec<Vec<Span>>,
    Vec<DrawOp>,
))
    requires
        area.wf(),
        pane.wf(),
        highlighter.wf(),
    ensures
        is_plan(*pane, area, drawn.0),
        are_colors(*highlighter, *pane, drawn.0, drawn.1@),
        op::ops_view(drawn.2@) == pane_ops(*pane, area, drawn.0, drawn.1@),
{
    let plan = plan_pane(pane, area);
    let ghost shown = pane.rows@.subrange(plan.first as int, plan.first + plan.count);
    proof {
        lemma_lines_of_rows(shown, pane.lines@.len());
    }
    let highlighted = highlighter.highlight_visible(
        &pane.path,
        &pane.first_line,
        &pane.lines,
        plan.first_line,
        plan.end_line,
    );
    proof {
        assert(syntax::spans_of_lines(highlighted@).len() == highlighted@.len());
    }
    let ops = draw_highlighted_pane(pane, area, &plan, &highlighted);
    (plan, highlighted, ops)
}

/// The editor: its tabs, and the panes in view with the tabs that they show.
#[derive(Debug, Clone, PartialEq, Eq)]
pub struct Editor {
    pub focused: bool,
    pub tabs: TabRow,
    pub panes: Vec<(usize, usize)>,
}

/// Where the parts of the editor stand: its tabs, its panes, and the two panes
/// with the column between them, where there are two.
#[derive(Debug, Clone, Copy, PartialEq, Eq)]
pub struct EditorAreas {
    pub tabs: Rect,
    pub body: Rect,
    pub halves: Option<(Rect, Rect, Rect)>,
}

impl EditorAreas {
    pub open spec fn wf(self) -> bool {
        &&& self.tabs.wf()
        &&& self.body.wf()
        &&& self.halves matches Some(halves) ==> halves.0.wf() && halves.1.wf() && halves.2.wf()
    }
}

/// Whether the parts of the editor stand where they belong.
pub open spec fn is_editor_layout(whole: Rect, panes: nat, areas: EditorAreas) -> bool {
    &&& area::may_split(
        whole,
        true,
        seq![Constraint::Length(1), Constraint::Min(3)],
        seq![areas.tabs, areas.body],
    )
    &&& terminal::are_halves(areas.body, panes == 2 && areas.body.width >= 54, areas.halves)
}

/// Divides the area of the editor.
pub fn editor_layout(whole: Rect, panes: usize) -> (areas: EditorAreas)
    requires
        whole.wf(),
    ensures
        is_editor_layout(whole, panes as nat, areas),
        areas.wf(),
        whole.holds(areas.tabs) && whole.holds(areas.body),
{
    let (tabs, body) = area::editor_areas(whole);
    let halves = if panes == 2 && body.width >= 54 {
        Some(area::halves(body))
    } else {
        None
    };
    EditorAreas { tabs, body, halves }
}

/// Where a pane stands: its area, its number and the tab that it shows.
#[derive(Debug, Clone, Copy, PartialEq, Eq)]
pub struct PanePlace {
    pub area: Rect,
    pub pane: usize,
    pub tab: usize,
}

/// The steps that draw the editor but for its panes, where its parts stand, and
/// which panes are drawn where. Where there is no pane, `empty` is the area in
/// place of them.
#[derive(Debug, Clone, PartialEq, Eq)]
pub struct EditorDrawing {
    pub ops: Vec<DrawOp>,
    pub tabs: Vec<(Rect, usize)>,
    pub closes: Vec<(Rect, usize)>,
    pub empty: Option<Rect>,
    pub panes: Vec<PanePlace>,
}

#[verifier::ext_equal]
pub struct EditorDrawingView {
    pub ops: Seq<OpView>,
    pub tabs: Seq<(Rect, usize)>,
    pub closes: Seq<(Rect, usize)>,
    pub empty: Option<Rect>,
    pub panes: Seq<PanePlace>,
}

impl View for EditorDrawing {
    type V = EditorDrawingView;

    open spec fn view(&self) -> EditorDrawingView {
        EditorDrawingView {
            ops: op::ops_view(self.ops@),
            tabs: self.tabs@,
            closes: self.closes@,
            empty: self.empty,
            panes: self.panes@,
        }
    }
}

/// Pane `i` of the editor in an area.
pub open spec fn place(editor: Editor, i: int, area: Rect) -> PanePlace {
    PanePlace { area, pane: editor.panes@[i].0, tab: editor.panes@[i].1 }
}

/// What is drawn of the editor but for its panes: its tabs, and a hint where
/// there is no pane, or the column between two panes.
pub open spec fn editor_view(editor: Editor, areas: EditorAreas) -> EditorDrawingView {
    let widths = tabs::tab_widths(editor.tabs.tabs@);
    let rects = tabs::tab_rects(areas.tabs, tabs::editor_tab_sizes(), widths);
    let row = tabs::tab_ops(editor.tabs, areas.tabs, widths);
    let (more, empty, panes) = if editor.panes@.len() == 0 {
        (
            op::no_ops().push(
                (OpView::Panel {
                    area: areas.body,
                    title: " Editor "@,
                    border: style::border_style(editor.focused),
                }),
            ).push(
                (OpView::Label {
                    area: areas.body.within_border(),
                    text: "Click a file in Explorer to open it."@,
                    style: style::muted_style(),
                }),
            ),
            Some(areas.body.within_border()),
            Seq::empty(),
        )
    } else {
        match areas.halves {
            Some((left, middle, right)) => (
                op::no_ops().push(op::separator(middle)),
                None,
                Seq::empty().push(place(editor, 0, left)).push(place(editor, 1, right)),
            ),
            None => (op::no_ops(), None, Seq::empty().push(place(editor, 0, areas.body))),
        }
    };
    EditorDrawingView {
        ops: row + more,
        tabs: tabs::numbered(rects),
        closes: tabs::close_rects(rects),
        empty,
        panes,
    }
}

/// Draws the editor but for its panes, with its parts in the given areas.
pub fn draw_editor_in(editor: &Editor, areas: EditorAreas) -> (drawing: EditorDrawing)
    requires
        areas.wf(),
        areas.halves is Some ==> editor.panes@.len() >= 2,
    ensures
        drawing@ == editor_view(*editor, areas),
{
    let row = tabs::draw_tabs(&editor.tabs, areas.tabs);
    let mut ops = row.ops;
    let ghost before = op::ops_view(ops@);
    let mut panes: Vec<PanePlace> = Vec::new();
    let mut empty: Option<Rect> = None;
    if editor.panes.len() == 0 {
        let inner = areas.body.inner();
        op::push(
            &mut ops,
            DrawOp::Panel {
                area: areas.body,
                title: " Editor ".to_owned(),
                border: style::border_style(editor.focused),
            },
        );
        op::push_label(
            &mut ops,
            inner,
            "Click a file in Explorer to open it.",
            style::muted_style(),
        );
        empty = Some(inner);
    } else if let Some((left, middle, right)) = areas.halves {
        op::push(&mut ops, op::separator_op(middle));
        let (pane, tab) = editor.panes[0];
        panes.push(PanePlace { area: left, pane, tab });
        let (pane, tab) = editor.panes[1];
        panes.push(PanePlace { area: right, pane, tab });
    } else {
        let (pane, tab) = editor.panes[0];
        panes.push(PanePlace { area: areas.body, pane, tab });
    }
    let drawing = EditorDrawing { ops, tabs: row.tabs, closes: row.closes, empty, panes };
    proof {
        assert(drawing@ =~= editor_view(*editor, areas));
    }
    drawing
}

/// Draws the editor but for its panes.
pub fn draw_editor(editor: &Editor, area: Rect) -> (drawn: (EditorAreas, EditorDrawing))
    requires
        area.wf(),
    ensures
        is_editor_layout(area, editor.panes@.len(), drawn.0),
        drawn.1@ == editor_view(*editor, drawn.0),
{
    let areas = editor_layout(area, editor.panes.len());
    (areas, draw_editor_in(editor, areas))
}

} // verus!
