//! Lines of styled text.

use vstd::prelude::*;

use crate::screen::TerminalStyle;
use crate::search;
use crate::spans;
use crate::spans::TerminalSpan;
use crate::text;
use crate::ui::style;
use crate::ui::style::Color;
use crate::ui::style::Style;

verus! {

/// A piece of text in one style.
#[derive(Debug, Clone, PartialEq, Eq)]
pub struct Span {
    pub text: String,
    pub style: Style,
}

/// The contents of spans.
pub open spec fn spans_view(spans: Seq<Span>) -> Seq<(Seq<char>, Style)> {
    Seq::new(spans.len(), |i: int| (spans[i].text@, spans[i].style))
}

pub open spec fn no_spans() -> Seq<(Seq<char>, Style)> {
    Seq::empty()
}

/// The number of characters of spans.
pub open spec fn total_len(spans: Seq<(Seq<char>, Style)>) -> nat
    decreases spans.len(),
{
    if spans.len() == 0 {
        0
    } else {
        total_len(spans.drop_last()) + spans.last().0.len()
    }
}

/// The characters of spans, each in its style.
pub open spec fn cells(spans: Seq<(Seq<char>, Style)>) -> Seq<(char, Style)>
    decreases spans.len(),
{
    if spans.len() == 0 {
        Seq::empty()
    } else {
        let (text, style) = spans.last();
        cells(spans.drop_last()) + Seq::new(text.len(), |i: int| (text[i], style))
    }
}

proof fn lemma_total_len_take(spans: Seq<(Seq<char>, Style)>, n: int)
    requires
        0 <= n <= spans.len(),
    ensures
        total_len(spans.take(n)) <= total_len(spans),
    decreases spans.len() - n,
{
    if n == spans.len() {
        assert(spans.take(n) =~= spans);
    } else {
        assert(spans.take(n + 1).drop_last() =~= spans.take(n));
        lemma_total_len_take(spans, n + 1);
    }
}

/// A copy of a span.
pub fn copy_span(span: &Span) -> (copied: Span)
    ensures
        copied.text@ == span.text@,
        copied.style == span.style,
{
    Span { text: span.text.clone(), style: span.style }
}

pub fn copy_spans(spans: &Vec<Span>) -> (copied: Vec<Span>)
    ensures
        spans_view(copied@) == spans_view(spans@),
{
    let mut copied: Vec<Span> = Vec::new();
    for i in 0..spans.len()
        invariant
            copied@.len() == i,
            forall|j: int|
                0 <= j < i ==> (#[trigger] copied@[j]).text@ == spans@[j].text@ && copied@[j].style
                    == spans@[j].style,
    {
        copied.push(copy_span(&spans[i]));
    }
    proof {
        assert(spans_view(copied@) =~= spans_view(spans@));
    }
    copied
}

/// A span of text.
pub fn span(text: &str, style: Style) -> (out: Span)
    ensures
        out.text@ == text@,
        out.style == style,
{
    Span { text: text.to_owned(), style }
}

/// Appends a span.
pub fn push_span(spans: &mut Vec<Span>, text: &str, style: Style)
    ensures
        spans_view(final(spans)@) == spans_view(old(spans)@).push((text@, style)),
{
    spans.push(span(text, style));
    proof {
        assert(spans_view(spans@) =~= spans_view(old(spans)@).push((text@, style)));
    }
}

/// Appends a character, to the last of the spans from `from` on where it has
/// its style.
fn push_char(spans: &mut Vec<Span>, from: usize, c: char, style: Style)
    requires
        from <= old(spans)@.len(),
    ensures
        final(spans)@.len() >= from,
        final(spans)@.take(from as int) == old(spans)@.take(from as int),
        spans_view(final(spans)@.skip(from as int)) == spans::extended(
            spans_view(old(spans)@.skip(from as int)),
            seq![c],
            style,
        ),
{
    let ghost before = spans@;
    let ghost view = spans_view(before.skip(from as int));
    if spans.len() > from {
        match spans.pop() {
            Some(last) => {
                proof {
                    assert(view.last() == (last.text@, last.style));
                }
                if last.style == style {
                    let mut last = last;
                    let ghost start = last.text@;
                    last.text.push(c);
                    proof {
                        assert(last.text@ =~= start + seq![c]);
                    }
                    spans.push(last);
                } else {
                    spans.push(last);
                    let mut text = String::new();
                    text.push(c);
                    proof {
                        assert(text@ =~= seq![c]);
                    }
                    spans.push(Span { text, style });
                }
            },
            None => {},
        }
    } else {
        let mut text = String::new();
        text.push(c);
        proof {
            assert(text@ =~= seq![c]);
        }
        spans.push(Span { text, style });
    }
    proof {
        assert(spans@.take(from as int) =~= before.take(from as int));
        assert(spans_view(spans@.skip(from as int)) =~= spans::extended(view, seq![c], style));
    }
}

/// The characters of a text that begins in column `col`, each in the style that
/// `style_at` gives it for its own style and its column.
pub open spec fn restyled_chars(
    text: Seq<char>,
    style: Style,
    col: int,
    style_at: spec_fn(Style, int) -> Style,
) -> Seq<(Seq<char>, Style)> {
    Seq::new(text.len(), |i: int| (seq![text[i]], style_at(style, col + i)))
}

/// Spans in other styles: each span becomes the runs of the styles that its
/// characters get.
pub open spec fn restyled(
    spans: Seq<(Seq<char>, Style)>,
    style_at: spec_fn(Style, int) -> Style,
) -> Seq<(Seq<char>, Style)>
    decreases spans.len(),
{
    if spans.len() == 0 {
        Seq::empty()
    } else {
        let (text, style) = spans.last();
        let before = spans.drop_last();
        restyled(before, style_at) + spans::runs(
            restyled_chars(text, style, total_len(before) as int, style_at),
        )
    }
}

proof fn lemma_plain_chars(
    text: Seq<char>,
    style: Style,
    col: int,
    style_at: spec_fn(Style, int) -> Style,
    n: int,
)
    requires
        0 <= n <= text.len(),
    ensures
        spans::plain(restyled_chars(text, style, col, style_at).take(n)) == text.take(n),
    decreases n,
{
    let chars = restyled_chars(text, style, col, style_at);
    if n > 0 {
        lemma_plain_chars(text, style, col, style_at, n - 1);
        assert(chars.take(n).drop_last() =~= chars.take(n - 1));
        assert(spans::plain(chars.take(n)) =~= text.take(n));
    } else {
        assert(spans::plain(chars.take(n)) =~= text.take(n));
    }
}

proof fn lemma_plain_sum(a: Seq<(Seq<char>, Style)>, b: Seq<(Seq<char>, Style)>)
    ensures
        spans::plain(a + b) == spans::plain(a) + spans::plain(b),
    decreases b.len(),
{
    if b.len() > 0 {
        lemma_plain_sum(a, b.drop_last());
        assert((a + b).drop_last() =~= a + b.drop_last());
        assert(spans::plain(a + b) =~= spans::plain(a) + spans::plain(b));
    } else {
        assert(a + b =~= a);
        assert(spans::plain(a + b) =~= spans::plain(a) + spans::plain(b));
    }
}

/// The number of characters of spans is that of their text.
pub proof fn lemma_text_len(spans: Seq<(Seq<char>, Style)>)
    ensures
        total_len(spans) == spans::plain(spans).len(),
    decreases spans.len(),
{
    if spans.len() > 0 {
        lemma_text_len(spans.drop_last());
    }
}

/// Whatever styles spans are given, their text stays.
pub proof fn restyling_keeps_the_text(
    spans: Seq<(Seq<char>, Style)>,
    style_at: spec_fn(Style, int) -> Style,
)
    ensures
        spans::plain(restyled(spans, style_at)) == spans::plain(spans),
    decreases spans.len(),
{
    if spans.len() > 0 {
        let (text, style) = spans.last();
        let before = spans.drop_last();
        let chars = restyled_chars(text, style, total_len(before) as int, style_at);
        restyling_keeps_the_text(before, style_at);
        lemma_plain_chars(text, style, total_len(before) as int, style_at, text.len() as int);
        assert(chars.take(text.len() as int) =~= chars);
        assert(text.take(text.len() as int) =~= text);
        spans::runs_keep_the_text(chars);
        lemma_plain_sum(restyled(before, style_at), spans::runs(chars));
    }
}

/// Where a symbol is used in a line, and how.
#[derive(Debug, Clone, Copy, PartialEq, Eq, Structural)]
pub enum LspDocumentHighlightKind {
    Text,
    Read,
    Write,
}

#[derive(Debug, Clone, Copy, PartialEq, Eq, Structural)]
pub struct LspDocumentHighlight {
    pub start_col: usize,
    pub end_col: usize,
    pub kind: LspDocumentHighlightKind,
}

/// Whether a column is highlighted in a kind.
pub open spec fn highlighted_as(
    highlights: Seq<LspDocumentHighlight>,
    col: int,
    kind: LspDocumentHighlightKind,
) -> bool {
    exists|i: int|
        0 <= i < highlights.len() && (#[trigger] highlights[i]).kind == kind
            && highlights[i].start_col <= col < highlights[i].end_col
}

/// How a column is highlighted: a write outweighs a read, which outweighs a
/// mention.
pub open spec fn highlight_at(highlights: Seq<LspDocumentHighlight>, col: int) -> Option<
    LspDocumentHighlightKind,
> {
    if highlighted_as(highlights, col, LspDocumentHighlightKind::Write) {
        Some(LspDocumentHighlightKind::Write)
    } else if highlighted_as(highlights, col, LspDocumentHighlightKind::Read) {
        Some(LspDocumentHighlightKind::Read)
    } else if highlighted_as(highlights, col, LspDocumentHighlightKind::Text) {
        Some(LspDocumentHighlightKind::Text)
    } else {
        None
    }
}

/// The style of a character in a highlighted line.
pub open spec fn highlight_style(
    style: Style,
    highlights: Seq<LspDocumentHighlight>,
    col: int,
) -> Style {
    match highlight_at(highlights, col) {
        Some(LspDocumentHighlightKind::Write) => style.fg(Color::White).bg(
            style::highlight_write_bg(),
        ).bold(),
        Some(LspDocumentHighlightKind::Read) => style.bg(style::highlight_read_bg()),
        Some(LspDocumentHighlightKind::Text) => style.bg(style::highlight_text_bg()),
        None => style,
    }
}

pub open spec fn highlighting(highlights: Seq<LspDocumentHighlight>) -> spec_fn(Style, int) -> Style {
    |style: Style, col: int| highlight_style(style, highlights, col)
}

/// A line with its highlights.
pub open spec fn with_highlights(
    spans: Seq<(Seq<char>, Style)>,
    highlights: Seq<LspDocumentHighlight>,
) -> Seq<(Seq<char>, Style)> {
    if highlights.len() == 0 {
        spans
    } else {
        restyled(spans, highlighting(highlights))
    }
}

pub fn document_highlight_kind_at_col(col: usize, highlights: &Vec<LspDocumentHighlight>) -> (kind:
    Option<LspDocumentHighlightKind>)
    ensures
        kind == highlight_at(highlights@, col as int),
{
    let mut read = false;
    let mut mentioned = false;
    for i in 0..highlights.len()
        invariant
            forall|j: int|
                0 <= j < i && (#[trigger] highlights@[j]).start_col <= col < highlights@[j].end_col
                    ==> highlights@[j].kind != LspDocumentHighlightKind::Write,
            read <==> exists|j: int|
                0 <= j < i && (#[trigger] highlights@[j]).kind == LspDocumentHighlightKind::Read
                    && highlights@[j].start_col <= col < highlights@[j].end_col,
            mentioned <==> exists|j: int|
                0 <= j < i && (#[trigger] highlights@[j]).kind == LspDocumentHighlightKind::Text
                    && highlights@[j].start_col <= col < highlights@[j].end_col,
    {
        let highlight = highlights[i];
        if highlight.start_col <= col && col < highlight.end_col {
            match highlight.kind {
                LspDocumentHighlightKind::Write => {
                    return Some(LspDocumentHighlightKind::Write);
                },
                LspDocumentHighlightKind::Read => {
                    read = true;
                },
                LspDocumentHighlightKind::Text => {
                    mentioned = true;
                },
            }
        }
    }
    if read {
        Some(LspDocumentHighlightKind::Read)
    } else if mentioned {
        Some(LspDocumentHighlightKind::Text)
    } else {
        None
    }
}

pub fn document_highlight_cell_style(
    base_style: Style,
    col: usize,
    highlights: &Vec<LspDocumentHighlight>,
) -> (out: Style)
    ensures
        out == highlight_style(base_style, highlights@, col as int),
{
    match document_highlight_kind_at_col(col, highlights) {
        Some(LspDocumentHighlightKind::Write) => base_style.fg(Color::White).bg(
            style::highlight_write_bg(),
        ).bold(),
        Some(LspDocumentHighlightKind::Read) => base_style.bg(style::highlight_read_bg()),
        Some(LspDocumentHighlightKind::Text) => base_style.bg(style::highlight_text_bg()),
        None => base_style,
    }
}

/// A line with its highlights.
pub fn document_highlight_line_spans(
    base_spans: &Vec<Span>,
    highlights: &Vec<LspDocumentHighlight>,
) -> (out: Vec<Span>)
    requires
        total_len(spans_view(base_spans@)) <= usize::MAX,
    ensures
        spans_view(out@) == with_highlights(spans_view(base_spans@), highlights@),
{
    if highlights.len() == 0 {
        return copy_spans(base_spans);
    }
    let ghost base = spans_view(base_spans@);
    let ghost style_at = highlighting(highlights@);
    let mut out: Vec<Span> = Vec::new();
    let mut col: usize = 0;
    proof {
        assert(spans_view(out@) =~= no_spans());
    }
    for i in 0..base_spans.len()
        invariant
            base == spans_view(base_spans@),
            style_at == highlighting(highlights@),
            total_len(base) <= usize::MAX,
            col == total_len(base.take(i as int)),
            spans_view(out@) == restyled(base.take(i as int), style_at),
    {
        let ghost before = out@;
        let ghost start = col as int;
        let ghost source = base_spans@[i as int].text@;
        let ghost own = base_spans@[i as int].style;
        let ghost items = restyled_chars(source, own, start, style_at);
        proof {
            assert(base.take(i + 1).drop_last() =~= base.take(i as int));
            assert(base.take(i + 1).last() == (source, own));
            lemma_total_len_take(base, i + 1);
        }
        let from = out.len();
        let chars = text::chars_of(&base_spans[i].text);
        proof {
            assert(out@.skip(from as int) =~= Seq::<Span>::empty());
            assert(spans_view(out@.skip(from as int)) =~= no_spans());
            assert(items.take(0) =~= no_spans());
        }
        for k in 0..chars.len()
            invariant
                chars@ == source,
                own == base_spans@[i as int].style,
                i < base_spans@.len(),
                col == start + k,
                start + source.len() <= usize::MAX,
                style_at == highlighting(highlights@),
                items == restyled_chars(source, own, start, style_at),
                from == before.len(),
                from <= out@.len(),
                out@.take(from as int) == before,
                spans_view(out@.skip(from as int)) == spans::runs(items.take(k as int)),
        {
            proof {
                assert(items.take(k + 1).drop_last() =~= items.take(k as int));
            }
            let cell_style = document_highlight_cell_style(base_spans[i].style, col, highlights);
            push_char(&mut out, from, chars[k], cell_style);
            col = col + 1;
        }
        proof {
            assert(items.take(chars@.len() as int) =~= items);
            assert(out@ =~= before + out@.skip(from as int));
            assert(spans_view(out@) =~= spans_view(before) + spans_view(out@.skip(from as int)));
        }
    }
    proof {
        assert(base.take(base_spans@.len() as int) =~= base);
    }
    out
}

/// Whether a column lies in one of several ranges.
pub open spec fn in_ranges(ranges: Seq<(usize, usize)>, col: int) -> bool {
    exists|i: int| 0 <= i < ranges.len() && (#[trigger] ranges[i]).0 <= col < ranges[i].1
}

/// A style with those of all found ranges that a column lies in laid over it.
pub open spec fn found_style(style: Style, ranges: Seq<(usize, usize, bool)>, col: int) -> Style
    decreases ranges.len(),
{
    if ranges.len() == 0 {
        style
    } else {
        let before = found_style(style, ranges.drop_last(), col);
        let (start, end, active) = ranges.last();
        if start <= col < end {
            style::terminal_search_style(before, active)
        } else {
            before
        }
    }
}

/// What is laid over a row of the terminal: the selected columns, where there
/// are any, what was found, and links.
pub struct Overlay {
    pub selection: Option<(usize, usize)>,
    pub found: Seq<(usize, usize, bool)>,
    pub links: Seq<(usize, usize)>,
}

/// The style of a terminal cell with what is laid over it.
pub open spec fn overlay_style(style: Style, overlay: Overlay, col: int) -> Style {
    let linked = if in_ranges(overlay.links, col) {
        style::terminal_link_style(style)
    } else {
        style
    };
    let selected = match overlay.selection {
        Some((start, end)) => if start <= col < end {
            style::terminal_selection_style(style)
        } else {
            linked
        },
        None => linked,
    };
    found_style(selected, overlay.found, col)
}

pub open spec fn overlaying(overlay: Overlay) -> spec_fn(Style, int) -> Style {
    |style: Style, col: int| overlay_style(style, overlay, col)
}

/// Terminal cells in the styles they are shown in.
pub open spec fn shown_row(row: Seq<(Seq<char>, TerminalStyle)>) -> Seq<(Seq<char>, Style)> {
    Seq::new(row.len(), |i: int| (row[i].0, style::shown_style(row[i].1)))
}

/// The text of so many spaces.
pub open spec fn spaces(n: nat) -> Seq<char> {
    Seq::new(n, |i: int| ' ')
}

/// A row of the terminal as it is shown. A selection goes on past the text of
/// the row.
pub open spec fn shown_terminal_row(
    row: Seq<(Seq<char>, TerminalStyle)>,
    overlay: Overlay,
) -> Seq<(Seq<char>, Style)> {
    let base = shown_row(row);
    if overlay.selection is None && overlay.found.len() == 0 && overlay.links.len() == 0 {
        base
    } else {
        let used = Overlay {
            selection: match overlay.selection {
                Some((start, end)) => if end > start {
                    Some((start, end))
                } else {
                    None
                },
                None => None,
            },
            ..overlay
        };
        let styled = restyled(base, overlaying(used));
        let len = total_len(base);
        match used.selection {
            Some((start, end)) => if end > len {
                let first = if start > len {
                    start as nat
                } else {
                    len
                };
                styled.push(
                    (
                        spaces((end - first) as nat),
                        style::terminal_selection_style(style::body_style()),
                    ),
                )
            } else {
                styled
            },
            None => styled,
        }
    }
}

fn lies_in_ranges(ranges: &Vec<(usize, usize)>, col: usize) -> (yes: bool)
    ensures
        yes == in_ranges(ranges@, col as int),
{
    for i in 0..ranges.len()
        invariant
            forall|j: int|
                0 <= j < i ==> !((#[trigger] ranges@[j]).0 <= col < ranges@[j].1),
    {
        let (start, end) = ranges[i];
        if start <= col && col < end {
            return true;
        }
    }
    false
}

pub fn terminal_cell_overlay_style(
    base_style: Style,
    col: usize,
    selection: Option<(usize, usize)>,
    search_ranges: &Vec<(usize, usize, bool)>,
    link_ranges: &Vec<(usize, usize)>,
) -> (out: Style)
    ensures
        out == overlay_style(
            base_style,
            (Overlay { selection, found: search_ranges@, links: link_ranges@ }),
            col as int,
        ),
{
    let mut out = if lies_in_ranges(link_ranges, col) {
        style::terminal_link_style(base_style)
    } else {
        base_style
    };
    if let Some((start, end)) = selection {
        if start <= col && col < end {
            out = style::terminal_selection_style(base_style);
        }
    }
    let ghost below = out;
    for i in 0..search_ranges.len()
        invariant
            out == found_style(below, search_ranges@.take(i as int), col as int),
    {
        proof {
            assert(search_ranges@.take(i + 1).drop_last() =~= search_ranges@.take(i as int));
        }
        let (start, end, active) = search_ranges[i];
        if start <= col && col < end {
            out = style::terminal_search_style(out, active);
        }
    }
    proof {
        assert(search_ranges@.take(search_ranges@.len() as int) =~= search_ranges@);
    }
    out
}

/// A text of so many spaces.
pub fn space_text(n: usize) -> (out: String)
    ensures
        out@ == spaces(n as nat),
{
    let mut out = String::new();
    for i in 0..n
        invariant
            out@ == spaces(i as nat),
    {
        out.push(' ');
        proof {
            assert(out@ =~= spaces((i + 1) as nat));
        }
    }
    out
}

fn show_row(row: &Vec<TerminalSpan>) -> (out: Vec<Span>)
    ensures
        spans_view(out@) == shown_row(spans::terminal_spans_view(row@)),
{
    let mut out: Vec<Span> = Vec::new();
    for i in 0..row.len()
        invariant
            out@.len() == i,
            forall|j: int|
                0 <= j < i ==> (#[trigger] out@[j]).text@ == row@[j].text@ && out@[j].style
                    == style::shown_style(row@[j].style),
    {
        out.push(span(&row[i].text, style::terminal_style(row[i].style)));
    }
    proof {
        assert(spans_view(out@) =~= shown_row(spans::terminal_spans_view(row@)));
    }
    out
}

/// A row of the terminal as it is shown.
pub fn terminal_row_spans(
    row: &Vec<TerminalSpan>,
    selection: Option<(usize, usize)>,
    search_ranges: &Vec<(usize, usize, bool)>,
    link_ranges: &Vec<(usize, usize)>,
) -> (out: Vec<Span>)
    requires
        total_len(shown_row(spans::terminal_spans_view(row@))) <= usize::MAX,
    ensures
        spans_view(out@) == shown_terminal_row(
            spans::terminal_spans_view(row@),
            (Overlay { selection, found: search_ranges@, links: link_ranges@ }),
        ),
{
    let base_spans = show_row(row);
    if selection.is_none() && search_ranges.len() == 0 && link_ranges.len() == 0 {
        return base_spans;
    }
    let used = match selection {
        Some((start, end)) => if end > start {
            Some((start, end))
        } else {
            None
        },
        None => None,
    };
    let ghost overlay = Overlay { selection: used, found: search_ranges@, links: link_ranges@ };
    let ghost base = spans_view(base_spans@);
    let ghost style_at = overlaying(overlay);
    let mut out: Vec<Span> = Vec::new();
    let mut col: usize = 0;
    proof {
        assert(spans_view(out@) =~= no_spans());
    }
    for i in 0..base_spans.len()
        invariant
            base == spans_view(base_spans@),
            overlay == (Overlay {
                selection: used,
                found: search_ranges@,
                links: link_ranges@,
            }),
            style_at == overlaying(overlay),
            total_len(base) <= usize::MAX,
            col == total_len(base.take(i as int)),
            spans_view(out@) == restyled(base.take(i as int), style_at),
    {
        let ghost before = out@;
        let ghost start = col as int;
        let ghost source = base_spans@[i as int].text@;
        let ghost own = base_spans@[i as int].style;
        let ghost items = restyled_chars(source, own, start, style_at);
        proof {
            assert(base.take(i + 1).drop_last() =~= base.take(i as int));
            assert(base.take(i + 1).last() == (source, own));
            lemma_total_len_take(base, i + 1);
        }
        let from = out.len();
        let chars = text::chars_of(&base_spans[i].text);
        proof {
            assert(out@.skip(from as int) =~= Seq::<Span>::empty());
            assert(spans_view(out@.skip(from as int)) =~= no_spans());
            assert(items.take(0) =~= no_spans());
        }
        for k in 0..chars.len()
            invariant
                chars@ == source,
                own == base_spans@[i as int].style,
                i < base_spans@.len(),
                col == start + k,
                start + source.len() <= usize::MAX,
                overlay == (Overlay {
                    selection: used,
                    found: search_ranges@,
                    links: link_ranges@,
                }),
                style_at == overlaying(overlay),
                items == restyled_chars(source, own, start, style_at),
                from == before.len(),
                from <= out@.len(),
                out@.take(from as int) == before,
                spans_view(out@.skip(from as int)) == spans::runs(items.take(k as int)),
        {
            proof {
                assert(items.take(k + 1).drop_last() =~= items.take(k as int));
            }
            let cell_style = terminal_cell_overlay_style(
                base_spans[i].style,
                col,
                used,
                search_ranges,
                link_ranges,
            );
            push_char(&mut out, from, chars[k], cell_style);
            col = col + 1;
        }
        proof {
            assert(items.take(chars@.len() as int) =~= items);
            assert(out@ =~= before + out@.skip(from as int));
            assert(spans_view(out@) =~= spans_view(before) + spans_view(out@.skip(from as int)));
        }
    }
    proof {
        assert(base.take(base_spans@.len() as int) =~= base);
    }
    if let Some((start, end)) = used {
        if end > col {
            let first: usize = if start > col {
                start
            } else {
                col
            };
            push_span(
                &mut out,
                &space_text(end - first),
                style::terminal_selection_style(style::body_style()),
            );
        }
    }
    out
}

/// The part of spans that lies in a window of `max` characters from `start` on.
pub open spec fn cropped(spans: Seq<(Seq<char>, Style)>, start: nat, max: nat) -> Seq<
    (Seq<char>, Style),
>
    decreases spans.len(),
{
    if spans.len() == 0 {
        Seq::empty()
    } else {
        let (text, style) = spans.last();
        let before = cropped(spans.drop_last(), start, max);
        let offset = total_len(spans.drop_last());
        let first = if start > offset {
            start - offset
        } else {
            0
        };
        let last = if start + max < offset + text.len() {
            start + max - offset
        } else {
            text.len() as int
        };
        if first < last {
            before.push((text.subrange(first, last), style))
        } else {
            before
        }
    }
}

/// The characters of cropped spans are those of the spans in the window.
pub proof fn cropping_keeps_the_window(spans: Seq<(Seq<char>, Style)>, start: nat, max: nat)
    ensures
        ({
            let all = cells(spans);
            let from = if start < all.len() {
                start as int
            } else {
                all.len() as int
            };
            let to = if start + max < all.len() {
                (start + max) as int
            } else {
                all.len() as int
            };
            cells(cropped(spans, start, max)) == all.subrange(from, to)
        }),
        cells(spans).len() == total_len(spans),
        forall|i: int|
            0 <= i < cropped(spans, start, max).len() ==> (#[trigger] cropped(
                spans,
                start,
                max,
            )[i]).0.len() > 0,
    decreases spans.len(),
{
    let all = cells(spans);
    let out = cropped(spans, start, max);
    if spans.len() > 0 {
        let (text, style) = spans.last();
        let head = spans.drop_last();
        cropping_keeps_the_window(head, start, max);
        let before = cropped(head, start, max);
        if out.len() > before.len() {
            assert(out.drop_last() =~= before);
        }
        let from = if start < all.len() {
            start as int
        } else {
            all.len() as int
        };
        let to = if start + max < all.len() {
            (start + max) as int
        } else {
            all.len() as int
        };
        assert(cells(out) =~= all.subrange(from, to));
    } else {
        assert(cells(out) =~= all.subrange(0, 0));
    }
}

/// The part of spans that lies in a window of `max_chars` characters from
/// `start` on.
pub fn crop_spans_by_chars(spans: &Vec<Span>, start: usize, max_chars: usize) -> (out: Vec<Span>)
    ensures
        spans_view(out@) == cropped(spans_view(spans@), start as nat, max_chars as nat),
{
    let ghost all = spans_view(spans@);
    let mut out: Vec<Span> = Vec::new();
    let mut skip: usize = start;
    let mut left: usize = max_chars;
    proof {
        assert(spans_view(out@) =~= no_spans());
    }
    for i in 0..spans.len()
        invariant
            all == spans_view(spans@),
            ({
                let offset = total_len(all.take(i as int));
                &&& skip == if start > offset {
                    start - offset
                } else {
                    0
                }
                &&& left == if offset <= start {
                    max_chars as int
                } else if offset - start < max_chars {
                    max_chars - (offset - start)
                } else {
                    0
                }
            }),
            spans_view(out@) == cropped(all.take(i as int), start as nat, max_chars as nat),
    {
        proof {
            assert(all.take(i + 1).drop_last() =~= all.take(i as int));
            assert(all.take(i + 1).last() == (spans@[i as int].text@, spans@[i as int].style));
        }
        let chars = text::chars_of(&spans[i].text);
        let len = chars.len();
        if skip >= len {
            skip = skip - len;
        } else {
            let taken: usize = if left < len - skip {
                left
            } else {
                len - skip
            };
            if taken > 0 {
                let part = text::slice_of(&chars, skip, skip + taken);
                push_span(&mut out, &part, spans[i].style);
            }
            left = left - taken;
            skip = 0;
        }
    }
    proof {
        assert(all.take(spans@.len() as int) =~= all);
    }
    out
}

/// A selection: the line and the column where it starts and where it ends.
#[derive(Debug, Clone, Copy, PartialEq, Eq)]
pub struct SelectionRange {
    pub start: (usize, usize),
    pub end: (usize, usize),
}

/// The columns of a line of so many characters that a selection covers, where it
/// covers any.
pub open spec fn selected_columns(selection: SelectionRange, line: usize, len: nat) -> Option<
    (usize, usize),
> {
    if line < selection.start.0 || line > selection.end.0 {
        None
    } else {
        let start: int = if line != selection.start.0 {
            0
        } else if selection.start.1 < len {
            selection.start.1 as int
        } else {
            len as int
        };
        let end: int = if line != selection.end.0 {
            len as int
        } else if selection.end.1 < len {
            selection.end.1 as int
        } else {
            len as int
        };
        if start == end {
            None
        } else {
            Some((start as usize, end as usize))
        }
    }
}

/// The columns of a line that selections cover.
pub open spec fn selected_ranges(selections: Seq<SelectionRange>, line: usize, len: nat) -> Seq<
    (usize, usize),
>
    decreases selections.len(),
{
    if selections.len() == 0 {
        Seq::empty()
    } else {
        let before = selected_ranges(selections.drop_last(), line, len);
        match selected_columns(selections.last(), line, len) {
            Some(range) => before.push(range),
            None => before,
        }
    }
}

/// The columns of a line that selections cover.
pub fn line_selection_ranges(selections: &Vec<SelectionRange>, line_index: usize, source: &str) -> (ranges:
    Vec<(usize, usize)>)
    ensures
        ranges@ == selected_ranges(selections@, line_index, source@.len()),
{
    let len = text::count(source);
    let mut ranges: Vec<(usize, usize)> = Vec::new();
    for i in 0..selections.len()
        invariant
            len == source@.len(),
            ranges@ == selected_ranges(selections@.take(i as int), line_index, source@.len()),
    {
        proof {
            assert(selections@.take(i + 1).drop_last() =~= selections@.take(i as int));
        }
        let selection = selections[i];
        let (start_line, start_col) = selection.start;
        let (end_line, end_col) = selection.end;
        if start_line <= line_index && line_index <= end_line {
            let start: usize = if line_index != start_line {
                0
            } else if start_col < len {
                start_col
            } else {
                len
            };
            let end: usize = if line_index != end_line {
                len
            } else if end_col < len {
                end_col
            } else {
                len
            };
            if start != end {
                ranges.push((start, end));
            }
        }
    }
    proof {
        assert(selections@.take(selections@.len() as int) =~= selections@);
    }
    ranges
}

/// Whether a range comes before another one: by its start, then by its end.
pub open spec fn range_before(a: (usize, usize), b: (usize, usize)) -> bool {
    a.0 < b.0 || (a.0 == b.0 && a.1 < b.1)
}

/// Sorted ranges with one more in its place.
pub open spec fn range_inserted(ranges: Seq<(usize, usize)>, range: (usize, usize)) -> Seq<
    (usize, usize),
>
    decreases ranges.len(),
{
    if ranges.len() == 0 || !range_before(range, ranges.last()) {
        ranges.push(range)
    } else {
        range_inserted(ranges.drop_last(), range).push(ranges.last())
    }
}

/// Ranges in order.
pub open spec fn ranges_sorted(ranges: Seq<(usize, usize)>) -> Seq<(usize, usize)>
    decreases ranges.len(),
{
    if ranges.len() == 0 {
        Seq::empty()
    } else {
        range_inserted(ranges_sorted(ranges.drop_last()), ranges.last())
    }
}

fn sort_ranges(ranges: &Vec<(usize, usize)>) -> (out: Vec<(usize, usize)>)
    ensures
        out@ == ranges_sorted(ranges@),
{
    let mut out: Vec<(usize, usize)> = Vec::new();
    for i in 0..ranges.len()
        invariant
            out@ == ranges_sorted(ranges@.take(i as int)),
    {
        let range = ranges[i];
        let ghost done = out@;
        proof {
            assert(ranges@.take(i + 1).drop_last() =~= ranges@.take(i as int));
        }
        let mut at: usize = out.len();
        proof {
            assert(done.take(at as int) =~= done);
            assert(range_inserted(done, range) =~= range_inserted(done.take(at as int), range)
                + done.skip(at as int));
        }
        while at > 0 && (range.0 < out[at - 1].0 || (range.0 == out[at - 1].0 && range.1 < out[at
            - 1].1))
            invariant
                out@ == done,
                at <= done.len(),
                range_inserted(done, range) == range_inserted(done.take(at as int), range)
                    + done.skip(at as int),
            decreases at,
        {
            proof {
                let head = done.take(at as int);
                assert(head.drop_last() =~= done.take(at - 1));
                assert(range_inserted(head.drop_last(), range).push(head.last()) + done.skip(
                    at as int,
                ) =~= range_inserted(done.take(at - 1), range) + done.skip(at - 1));
            }
            at = at - 1;
        }
        out.insert(at, range);
        proof {
            assert(out@ =~= done.take(at as int).push(range) + done.skip(at as int));
        }
    }
    proof {
        assert(ranges@.take(ranges@.len() as int) =~= ranges@);
    }
    out
}

/// The characters of a text from one position up to another, as far as there
/// are any.
pub open spec fn sliced(source: Seq<char>, start: int, end: int) -> Seq<char> {
    let from = if start < source.len() {
        start
    } else {
        source.len() as int
    };
    let to = if end < source.len() {
        end
    } else {
        source.len() as int
    };
    if from < to {
        source.subrange(from, to)
    } else {
        Seq::empty()
    }
}

pub fn slice_chars(source: &str, start: usize, end: usize) -> (out: String)
    ensures
        out@ == sliced(source@, start as int, end as int),
{
    let chars = text::chars_of(source);
    let from: usize = if start < chars.len() {
        start
    } else {
        chars.len()
    };
    let to: usize = if end < chars.len() {
        end
    } else {
        chars.len()
    };
    if from < to {
        text::slice_of(&chars, from, to)
    } else {
        String::new()
    }
}

/// The characters of a text from a position on.
pub fn skip_chars(source: &str, count: usize) -> (out: String)
    ensures
        out@ == sliced(source@, count as int, source@.len() as int),
{
    let len = text::count(source);
    slice_chars(source, count, len)
}

/// The style of selected text in the editor.
#[verifier::allow_in_spec]
pub fn selection_style() -> Style
    returns
        style::plain().fg(Color::White).bg(style::active_bg()),
{
    style::plain().fg(Color::White).bg(style::active_bg())
}

/// The spans of a line up to the end of the last of several selected ranges, and
/// the column of that end.
pub open spec fn selection_parts(source: Seq<char>, ranges: Seq<(usize, usize)>) -> (
    Seq<(Seq<char>, Style)>,
    int,
)
    decreases ranges.len(),
{
    if ranges.len() == 0 {
        (Seq::empty(), 0)
    } else {
        let (before, cursor) = selection_parts(source, ranges.drop_last());
        let (start, end) = ranges.last();
        let gap = if start > cursor {
            before.push((sliced(source, cursor, start as int), style::plain()))
        } else {
            before
        };
        (gap.push((sliced(source, start as int, end as int), selection_style())), end as int)
    }
}

/// A line with selected ranges.
pub open spec fn with_selection(source: Seq<char>, ranges: Seq<(usize, usize)>) -> Seq<
    (Seq<char>, Style),
> {
    let (spans, cursor) = selection_parts(source, ranges_sorted(ranges));
    if cursor < source.len() {
        spans.push((sliced(source, cursor, source.len() as int), style::plain()))
    } else {
        spans
    }
}

/// Whether two ranges have no column in common.
pub open spec fn apart(a: (usize, usize), b: (usize, usize)) -> bool {
    a.1 <= b.0 || b.1 <= a.0
}

/// Whether ranges lie one behind the other in a line of so many characters.
pub open spec fn in_a_row(ranges: Seq<(usize, usize)>, len: nat) -> bool {
    &&& forall|i: int|
        0 <= i < ranges.len() ==> (#[trigger] ranges[i]).0 <= ranges[i].1 <= len
    &&& forall|i: int, j: int|
        0 <= i < j < ranges.len() ==> (#[trigger] ranges[i]).1 <= (#[trigger] ranges[j]).0
}

proof fn lemma_range_inserted(ranges: Seq<(usize, usize)>, range: (usize, usize), len: nat)
    requires
        in_a_row(ranges, len),
        range.0 <= range.1 <= len,
        forall|i: int| 0 <= i < ranges.len() ==> apart(#[trigger] ranges[i], range),
    ensures
        in_a_row(range_inserted(ranges, range), len),
        forall|i: int|
            0 <= i < range_inserted(ranges, range).len() ==> {
                let found = #[trigger] range_inserted(ranges, range)[i];
                found == range || ranges.contains(found)
            },
    decreases ranges.len(),
{
    let out = range_inserted(ranges, range);
    if ranges.len() == 0 || !range_before(range, ranges.last()) {
        assert forall|i: int| 0 <= i < out.len() implies {
            let found = #[trigger] out[i];
            found == range || ranges.contains(found)
        } by {
            if i < ranges.len() {
                assert(out[i] == ranges[i]);
            }
        }
        if ranges.len() > 0 {
            assert(apart(ranges[ranges.len() - 1], range));
        }
    } else {
        let head = ranges.drop_last();
        let last = ranges.last();
        assert(apart(ranges[ranges.len() - 1], range));
        lemma_range_inserted(head, range, len);
        let before = range_inserted(head, range);
        assert forall|i: int| 0 <= i < before.len() implies (#[trigger] before[i]).1 <= last.0 by {
            if before[i] != range {
                let k = choose|k: int| 0 <= k < head.len() && head[k] == before[i];
                assert(ranges[k] == before[i]);
            }
        }
        assert forall|i: int| 0 <= i < out.len() implies {
            let found = #[trigger] out[i];
            found == range || ranges.contains(found)
        } by {
            if i < before.len() {
                assert(out[i] == before[i]);
                if before[i] != range {
                    let k = choose|k: int| 0 <= k < head.len() && head[k] == before[i];
                    assert(ranges[k] == before[i]);
                }
            } else {
                assert(out[i] == ranges[ranges.len() - 1]);
            }
        }
    }
}

pub proof fn lemma_ranges_sorted(ranges: Seq<(usize, usize)>, len: nat)
    requires
        forall|i: int|
            0 <= i < ranges.len() ==> (#[trigger] ranges[i]).0 <= ranges[i].1 <= len,
        forall|i: int, j: int|
            0 <= i < j < ranges.len() ==> apart(#[trigger] ranges[i], #[trigger] ranges[j]),
    ensures
        in_a_row(ranges_sorted(ranges), len),
        forall|i: int|
            0 <= i < ranges_sorted(ranges).len() ==> ranges.contains(
                #[trigger] ranges_sorted(ranges)[i],
            ),
    decreases ranges.len(),
{
    if ranges.len() > 0 {
        let head = ranges.drop_last();
        let last = ranges.last();
        assert(last == ranges[ranges.len() - 1]);
        lemma_ranges_sorted(head, len);
        let sorted = ranges_sorted(head);
        assert forall|i: int| 0 <= i < sorted.len() implies apart(#[trigger] sorted[i], last) by {
            let k = choose|k: int| 0 <= k < head.len() && head[k] == sorted[i];
            assert(ranges[k] == sorted[i]);
        }
        lemma_range_inserted(sorted, last, len);
        let out = ranges_sorted(ranges);
        assert forall|i: int| 0 <= i < out.len() implies ranges.contains(#[trigger] out[i]) by {
            if out[i] != last {
                let j = choose|j: int| 0 <= j < sorted.len() && sorted[j] == out[i];
                let k = choose|k: int| 0 <= k < head.len() && head[k] == sorted[j];
                assert(ranges[k] == out[i]);
            }
        }
    }
}

pub proof fn lemma_selection_parts(source: Seq<char>, ranges: Seq<(usize, usize)>)
    requires
        in_a_row(ranges, source.len()),
    ensures
        ({
            let (spans, cursor) = selection_parts(source, ranges);
            &&& 0 <= cursor <= source.len()
            &&& ranges.len() > 0 ==> cursor == ranges.last().1
            &&& spans::plain(spans) == source.take(cursor)
        }),
    decreases ranges.len(),
{
    if ranges.len() > 0 {
        let head = ranges.drop_last();
        lemma_selection_parts(source, head);
        let (before, cursor) = selection_parts(source, head);
        let (start, end) = ranges[ranges.len() - 1];
        if head.len() > 0 {
            assert(ranges[head.len() - 1].1 <= start);
        }
        let gap = if start > cursor {
            before.push((sliced(source, cursor, start as int), style::plain()))
        } else {
            before
        };
        if start > cursor {
            assert(gap.drop_last() =~= before);
        }
        assert(spans::plain(gap) =~= source.take(start as int));
        let all = gap.push((sliced(source, start as int, end as int), selection_style()));
        assert(all.drop_last() =~= gap);
        assert(spans::plain(all) =~= source.take(end as int));
    } else {
        assert(spans::plain(selection_parts(source, ranges).0) =~= source.take(0));
    }
}

/// A line with selections that have no column in common is shown once, as it
/// is.
pub proof fn selecting_keeps_the_text(source: Seq<char>, ranges: Seq<(usize, usize)>)
    requires
        forall|i: int|
            0 <= i < ranges.len() ==> (#[trigger] ranges[i]).0 <= ranges[i].1 <= source.len(),
        forall|i: int, j: int|
            0 <= i < j < ranges.len() ==> apart(#[trigger] ranges[i], #[trigger] ranges[j]),
    ensures
        spans::plain(with_selection(source, ranges)) == source,
{
    let sorted = ranges_sorted(ranges);
    lemma_ranges_sorted(ranges, source.len());
    lemma_selection_parts(source, sorted);
    let (spans, cursor) = selection_parts(source, sorted);
    if cursor < source.len() {
        let all = spans.push((sliced(source, cursor, source.len() as int), style::plain()));
        assert(all.drop_last() =~= spans);
        assert(spans::plain(all) =~= source);
    } else {
        assert(source.take(cursor) =~= source);
    }
}

/// A line with selected ranges.
pub fn selection_line_spans(source: &str, ranges: &Vec<(usize, usize)>) -> (out: Vec<Span>)
    ensures
        spans_view(out@) == with_selection(source@, ranges@),
{
    let ordered = sort_ranges(ranges);
    let mut out: Vec<Span> = Vec::new();
    let mut cursor: usize = 0;
    proof {
        assert(spans_view(out@) =~= no_spans());
    }
    for i in 0..ordered.len()
        invariant
            (spans_view(out@), cursor as int) == selection_parts(
                source@,
                ordered@.take(i as int),
            ),
    {
        proof {
            assert(ordered@.take(i + 1).drop_last() =~= ordered@.take(i as int));
        }
        let (start, end) = ordered[i];
        if start > cursor {
            push_span(&mut out, &slice_chars(source, cursor, start), style::plain());
        }
        push_span(&mut out, &slice_chars(source, start, end), selection_style());
        cursor = end;
    }
    proof {
        assert(ordered@.take(ordered@.len() as int) =~= ordered@);
    }
    if cursor < text::count(source) {
        push_span(&mut out, &skip_chars(source, cursor), style::plain());
    }
    out
}

/// The columns of the cursors in a line of so many characters.
pub open spec fn cursor_columns(cursors: Seq<(usize, usize)>, line: usize, len: nat) -> Seq<usize>
    decreases cursors.len(),
{
    if cursors.len() == 0 {
        Seq::empty()
    } else {
        let before = cursor_columns(cursors.drop_last(), line, len);
        if cursors.last().0 == line {
            before.push(
                if cursors.last().1 < len {
                    cursors.last().1
                } else {
                    len as usize
                },
            )
        } else {
            before
        }
    }
}

pub fn line_cursor_cols(cursors: &Vec<(usize, usize)>, line_index: usize, source: &str) -> (cols: Vec<
    usize,
>)
    ensures
        cols@ == cursor_columns(cursors@, line_index, source@.len()),
{
    let len = text::count(source);
    let mut cols: Vec<usize> = Vec::new();
    for i in 0..cursors.len()
        invariant
            len == source@.len(),
            cols@ == cursor_columns(cursors@.take(i as int), line_index, source@.len()),
    {
        proof {
            assert(cursors@.take(i + 1).drop_last() =~= cursors@.take(i as int));
        }
        let (line, col) = cursors[i];
        if line == line_index {
            cols.push(
                if col < len {
                    col
                } else {
                    len
                },
            );
        }
    }
    proof {
        assert(cursors@.take(cursors@.len() as int) =~= cursors@);
    }
    cols
}

/// The characters of spans, those under a cursor in its style.
pub open spec fn cursor_chars(spans: Seq<(Seq<char>, Style)>, cols: Seq<usize>) -> Seq<
    (Seq<char>, Style),
>
    decreases spans.len(),
{
    if spans.len() == 0 {
        Seq::empty()
    } else {
        let (text, style) = spans.last();
        let before = spans.drop_last();
        cursor_chars(before, cols) + restyled_chars(
            text,
            style,
            total_len(before) as int,
            under_cursors(cols),
        )
    }
}

pub open spec fn under_cursors(cols: Seq<usize>) -> spec_fn(Style, int) -> Style {
    |style: Style, col: int|
        if exists|i: int| 0 <= i < cols.len() && #[trigger] cols[i] == col {
            style::cursor_style()
        } else {
            style
        }
}

/// The number of different columns from `from` on.
pub open spec fn distinct_from(cols: Seq<usize>, from: nat) -> nat
    decreases cols.len(),
{
    if cols.len() == 0 {
        0
    } else {
        let before = distinct_from(cols.drop_last(), from);
        if cols.last() >= from && !cols.drop_last().contains(cols.last()) {
            before + 1
        } else {
            before
        }
    }
}

/// A line with cursors: characters under a cursor are shown in its style, and a
/// cursor past the end of the line as a space.
pub open spec fn with_cursors(spans: Seq<(Seq<char>, Style)>, cols: Seq<usize>) -> Seq<
    (Seq<char>, Style),
> {
    if cols.len() == 0 {
        spans
    } else {
        spans::runs(cursor_chars(spans, cols)) + Seq::new(
            distinct_from(cols, total_len(spans)),
            |i: int| (" "@, style::cursor_style()),
        )
    }
}

fn has_cursor(cols: &Vec<usize>, col: usize, end: usize) -> (yes: bool)
    requires
        end <= cols@.len(),
    ensures
        yes == cols@.take(end as int).contains(col),
{
    for i in 0..end
        invariant
            end <= cols@.len(),
            forall|j: int| 0 <= j < i ==> cols@[j] != col,
    {
        if cols[i] == col {
            proof {
                assert(cols@.take(end as int)[i as int] == col);
            }
            return true;
        }
    }
    false
}

/// A line with cursors.
pub fn cursor_overlay_line_spans(base_spans: &Vec<Span>, cursor_cols: &Vec<usize>) -> (out: Vec<Span>)
    requires
        total_len(spans_view(base_spans@)) <= usize::MAX,
    ensures
        spans_view(out@) == with_cursors(spans_view(base_spans@), cursor_cols@),
{
    if cursor_cols.len() == 0 {
        return copy_spans(base_spans);
    }
    let ghost base = spans_view(base_spans@);
    let ghost style_at = under_cursors(cursor_cols@);
    let mut out: Vec<Span> = Vec::new();
    let mut col: usize = 0;
    proof {
        assert(spans_view(out@) =~= no_spans());
    }
    for i in 0..base_spans.len()
        invariant
            base == spans_view(base_spans@),
            style_at == under_cursors(cursor_cols@),
            total_len(base) <= usize::MAX,
            col == total_len(base.take(i as int)),
            spans_view(out@) == spans::runs(cursor_chars(base.take(i as int), cursor_cols@)),
    {
        let ghost start = col as int;
        let ghost source = base_spans@[i as int].text@;
        let ghost own = base_spans@[i as int].style;
        let ghost head = cursor_chars(base.take(i as int), cursor_cols@);
        let ghost items = restyled_chars(source, own, start, style_at);
        proof {
            assert(base.take(i + 1).drop_last() =~= base.take(i as int));
            assert(base.take(i + 1).last() == (source, own));
            lemma_total_len_take(base, i + 1);
            assert(head + items.take(0) =~= head);
        }
        let chars = text::chars_of(&base_spans[i].text);
        for k in 0..chars.len()
            invariant
                chars@ == source,
                own == base_spans@[i as int].style,
                i < base_spans@.len(),
                col == start + k,
                start + source.len() <= usize::MAX,
                style_at == under_cursors(cursor_cols@),
                items == restyled_chars(source, own, start, style_at),
                spans_view(out@) == spans::runs(head + items.take(k as int)),
        {
            proof {
                assert((head + items.take(k + 1)).drop_last() =~= head + items.take(k as int));
                assert(cursor_cols@.take(cursor_cols@.len() as int) =~= cursor_cols@);
                assert(out@.skip(0) =~= out@);
            }
            let cell_style = if has_cursor(cursor_cols, col, cursor_cols.len()) {
                style::cursor_style()
            } else {
                base_spans[i].style
            };
            push_char(&mut out, 0, chars[k], cell_style);
            proof {
                assert(out@.skip(0) =~= out@);
                assert(cell_style == style_at(own, start + k)) by {
                    if cursor_cols@.contains(col) {
                        let j = choose|j: int|
                            0 <= j < cursor_cols@.len() && cursor_cols@[j] == col;
                        assert(cursor_cols@[j] == start + k);
                    }
                }
            }
            col = col + 1;
        }
        proof {
            assert(items.take(chars@.len() as int) =~= items);
        }
    }
    proof {
        assert(base.take(base_spans@.len() as int) =~= base);
    }
    let ghost styled = spans_view(out@);
    let ghost blank = |i: int| (" "@, style::cursor_style());
    proof {
        assert(styled + Seq::new(distinct_from(cursor_cols@.take(0), col as nat), blank)
            =~= styled);
    }
    for i in 0..cursor_cols.len()
        invariant
            blank == (|i: int| (" "@, style::cursor_style())),
            spans_view(out@) == styled + Seq::new(
                distinct_from(cursor_cols@.take(i as int), col as nat),
                blank,
            ),
    {
        proof {
            assert(cursor_cols@.take(i + 1).drop_last() =~= cursor_cols@.take(i as int));
        }
        let ghost before = distinct_from(cursor_cols@.take(i as int), col as nat);
        if cursor_cols[i] >= col && !has_cursor(cursor_cols, cursor_cols[i], i) {
            push_span(&mut out, " ", style::cursor_style());
            proof {
                assert((styled + Seq::new(before, blank)).push((" "@, style::cursor_style()))
                    =~= styled + Seq::new(before + 1, blank));
            }
        }
    }
    proof {
        assert(cursor_cols@.take(cursor_cols@.len() as int) =~= cursor_cols@);
    }
    out
}

/// The first of several ranges that a column lies in.
pub open spec fn range_at(ranges: Seq<(usize, usize)>, col: int) -> Option<(usize, usize)>
    decreases ranges.len(),
{
    if ranges.len() == 0 {
        None
    } else if ranges[0].0 <= col < ranges[0].1 {
        Some(ranges[0])
    } else {
        range_at(ranges.drop_first(), col)
    }
}

/// The style of a character in a line with search results: found text stands
/// out, more so where the cursor is at its start, and so does the cursor.
pub open spec fn search_style(col: int, ranges: Seq<(usize, usize)>, cursor: Option<usize>) -> Option<
    Style,
> {
    match range_at(ranges, col) {
        Some((start, _)) => Some(
            if cursor == Some(start) {
                style::plain().fg(Color::Black).bg(style::search_active_bg())
            } else {
                style::plain().fg(Color::White).bg(style::search_bg())
            },
        ),
        None => match cursor {
            Some(at) => if at == col {
                Some(style::cursor_style())
            } else {
                None
            },
            None => None,
        },
    }
}

pub open spec fn search_chars(
    source: Seq<char>,
    ranges: Seq<(usize, usize)>,
    cursor: Option<usize>,
) -> Seq<(Seq<char>, Style)> {
    Seq::new(
        source.len(),
        |i: int|
            (
                seq![source[i]],
                match search_style(i, ranges, cursor) {
                    Some(style) => style,
                    None => style::plain(),
                },
            ),
    )
}

/// A line with search results, where it has any.
pub open spec fn with_search(source: Seq<char>, needle: Seq<char>, cursor: Option<usize>) -> Option<
    Seq<(Seq<char>, Style)>,
> {
    let ranges = search::ranges(source, needle);
    if ranges.len() == 0 {
        None
    } else {
        let runs = spans::runs(search_chars(source, ranges, cursor));
        Some(
            match cursor {
                Some(at) => if at == source.len() {
                    runs.push((" "@, style::cursor_style()))
                } else {
                    runs
                },
                None => runs,
            },
        )
    }
}

pub fn search_char_style(
    char_index: usize,
    ranges: &Vec<(usize, usize)>,
    cursor_col: Option<usize>,
) -> (out: Option<Style>)
    ensures
        out == search_style(char_index as int, ranges@, cursor_col),
{
    proof {
        assert(ranges@.skip(0) =~= ranges@);
    }
    for i in 0..ranges.len()
        invariant
            range_at(ranges@, char_index as int) == range_at(
                ranges@.skip(i as int),
                char_index as int,
            ),
    {
        proof {
            assert(ranges@.skip(i as int)[0] == ranges@[i as int]);
            assert(ranges@.skip(i as int).drop_first() =~= ranges@.skip(i + 1));
        }
        let (start, end) = ranges[i];
        if start <= char_index && char_index < end {
            let active = match cursor_col {
                Some(at) => at == start,
                None => false,
            };
            return Some(
                if active {
                    style::plain().fg(Color::Black).bg(style::search_active_bg())
                } else {
                    style::plain().fg(Color::White).bg(style::search_bg())
                },
            );
        }
    }
    match cursor_col {
        Some(at) => if at == char_index {
            Some(style::cursor_style())
        } else {
            None
        },
        None => None,
    }
}

/// The character columns at which a text starts and ends in a line of the
/// editor.
pub fn line_match_ranges(line: &str, needle: &str) -> (found: Vec<(usize, usize)>)
    ensures
        found@ == search::ranges(line@, needle@),
{
    search::match_ranges(line, needle)
}

/// A line with search results; nothing where it has none.
pub fn search_line_spans(source: &str, needle: &str, cursor_col: Option<usize>) -> (out: Option<
    Vec<Span>,
>)
    ensures
        out is Some <==> with_search(source@, needle@, cursor_col) is Some,
        out matches Some(spans) ==> Some(spans_view(spans@)) == with_search(
            source@,
            needle@,
            cursor_col,
        ),
{
    let ranges = line_match_ranges(source, needle);
    if ranges.len() == 0 {
        return None;
    }
    let chars = text::chars_of(source);
    let ghost items = search_chars(source@, ranges@, cursor_col);
    let mut out: Vec<Span> = Vec::new();
    proof {
        assert(spans_view(out@) =~= no_spans());
        assert(items.take(0) =~= no_spans());
    }
    for i in 0..chars.len()
        invariant
            chars@ == source@,
            items == search_chars(source@, ranges@, cursor_col),
            spans_view(out@) == spans::runs(items.take(i as int)),
    {
        proof {
            assert(items.take(i + 1).drop_last() =~= items.take(i as int));
            assert(out@.skip(0) =~= out@);
        }
        let cell_style = match search_char_style(i, &ranges, cursor_col) {
            Some(found) => found,
            None => style::plain(),
        };
        push_char(&mut out, 0, chars[i], cell_style);
        proof {
            assert(out@.skip(0) =~= out@);
        }
    }
    proof {
        assert(items.take(chars@.len() as int) =~= items);
    }
    if let Some(at) = cursor_col {
        if at == chars.len() {
            push_span(&mut out, " ", style::cursor_style());
        }
    }
    Some(out)
}

} // verus!
