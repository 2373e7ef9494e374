//! What is marked in a line, character by character.

use vstd::prelude::*;

use crate::screen::TerminalStyle;
use crate::search;
use crate::spans;
use crate::spans::styled_chars;
use crate::ui::line;
use crate::ui::line::LspDocumentHighlight;
use crate::ui::line::LspDocumentHighlightKind;
use crate::ui::line::Overlay;
use crate::ui::line::SelectionRange;
use crate::ui::style;
use crate::ui::style::Color;
use crate::ui::style::Style;

verus! {

/// A style of two colors and nothing else.
pub open spec fn colored(fg: Color, bg: Color) -> Style {
    Style {
        fg: Some(fg),
        bg: Some(bg),
        bold: false,
        dim: false,
        italic: false,
        underlined: false,
    }
}

/// A style that changes nothing.
pub open spec fn unmarked() -> Style {
    Style { fg: None, bg: None, bold: false, dim: false, italic: false, underlined: false }
}

/// Whether a place comes before another: by its line, then by its column.
pub open spec fn is_before(a: (int, int), b: (int, int)) -> bool {
    a.0 < b.0 || (a.0 == b.0 && a.1 < b.1)
}

/// Whether a selection covers a place: it does not start behind it, and ends behind
/// it.
pub open spec fn covers(selection: SelectionRange, line: int, col: int) -> bool {
    &&& !is_before((line, col), (selection.start.0 as int, selection.start.1 as int))
    &&& is_before((line, col), (selection.end.0 as int, selection.end.1 as int))
}

/// A column of a line is in one of the selected ranges exactly if it is that of a
/// character of the line, and a selection covers it.
pub proof fn selections_cover_the_places_between_their_ends(
    selections: Seq<SelectionRange>,
    line: usize,
    len: nat,
    col: int,
)
    requires
        len <= usize::MAX,
        0 <= col,
    ensures
        ({
            let ranges = line::selected_ranges(selections, line, len);
            (exists|i: int| 0 <= i < ranges.len() && (#[trigger] ranges[i]).0 <= col < ranges[i].1)
                <==> (col < len && exists|k: int|
                0 <= k < selections.len() && covers(#[trigger] selections[k], line as int, col))
        }),
        forall|i: int|
            0 <= i < line::selected_ranges(selections, line, len).len() ==> (
            #[trigger] line::selected_ranges(selections, line, len)[i]).0
                != line::selected_ranges(selections, line, len)[i].1,
    decreases selections.len(),
{
    let ranges = line::selected_ranges(selections, line, len);
    if selections.len() > 0 {
        let head = selections.drop_last();
        let last = selections.last();
        selections_cover_the_places_between_their_ends(head, line, len, col);
        let before = line::selected_ranges(head, line, len);
        let own = line::selected_columns(last, line, len);
        let in_before = exists|i: int|
            0 <= i < before.len() && (#[trigger] before[i]).0 <= col < before[i].1;
        let in_own = own matches Some(range) && range.0 <= col < range.1;
        assert((exists|i: int|
            0 <= i < ranges.len() && (#[trigger] ranges[i]).0 <= col < ranges[i].1) <==> (in_before
            || in_own)) by {
            if in_before {
                let i = choose|i: int|
                    0 <= i < before.len() && (#[trigger] before[i]).0 <= col < before[i].1;
                assert(ranges[i] == before[i]);
            }
            if in_own {
                assert(ranges[before.len() as int] == own->0);
            }
            if exists|i: int| 0 <= i < ranges.len() && (#[trigger] ranges[i]).0 <= col < ranges[i].1 {
                let i = choose|i: int|
                    0 <= i < ranges.len() && (#[trigger] ranges[i]).0 <= col < ranges[i].1;
                if i < before.len() {
                    assert(before[i] == ranges[i]);
                }
            }
        }
        assert(in_own <==> col < len && covers(last, line as int, col));
        let by_head = exists|k: int|
            0 <= k < head.len() && covers(#[trigger] head[k], line as int, col);
        assert((exists|k: int|
            0 <= k < selections.len() && covers(#[trigger] selections[k], line as int, col)) <==> (
        by_head || covers(last, line as int, col))) by {
            if by_head {
                let k = choose|k: int|
                    0 <= k < head.len() && covers(#[trigger] head[k], line as int, col);
                assert(selections[k] == head[k]);
            }
            if covers(last, line as int, col) {
                assert(selections[selections.len() - 1] == last);
            }
            if exists|k: int|
                0 <= k < selections.len() && covers(#[trigger] selections[k], line as int, col) {
                let k = choose|k: int|
                    0 <= k < selections.len() && covers(
                        #[trigger] selections[k],
                        line as int,
                        col,
                    );
                if k < head.len() {
                    assert(head[k] == selections[k]);
                }
            }
        }
        assert forall|i: int| 0 <= i < ranges.len() implies (#[trigger] ranges[i]).0
            != ranges[i].1 by {
            if i < before.len() {
                assert(ranges[i] == before[i]);
            }
        }
    }
}

/// A range that a column lies in.
pub open spec fn lies_in(ranges: Seq<(usize, usize)>, col: int) -> bool {
    exists|i: int| 0 <= i < ranges.len() && (#[trigger] ranges[i]).0 <= col < ranges[i].1
}

proof fn lemma_inserted_same(
    ranges: Seq<(usize, usize)>,
    range: (usize, usize),
    found: (usize, usize),
)
    ensures
        line::range_inserted(ranges, range).contains(found) <==> found == range
            || ranges.contains(found),
    decreases ranges.len(),
{
    let out = line::range_inserted(ranges, range);
    if ranges.len() == 0 || !line::range_before(range, ranges.last()) {
        assert(out[ranges.len() as int] == range);
        if ranges.contains(found) {
            let k = choose|k: int| 0 <= k < ranges.len() && ranges[k] == found;
            assert(out[k] == found);
        }
        if out.contains(found) {
            let k = choose|k: int| 0 <= k < out.len() && out[k] == found;
            if k < ranges.len() {
                assert(ranges[k] == found);
            }
        }
    } else {
        let head = ranges.drop_last();
        lemma_inserted_same(head, range, found);
        let before = line::range_inserted(head, range);
        assert(out[before.len() as int] == ranges.last());
        if out.contains(found) {
            let k = choose|k: int| 0 <= k < out.len() && out[k] == found;
            if k < before.len() {
                assert(before[k] == found);
            } else {
                assert(ranges[ranges.len() - 1] == found);
            }
            if head.contains(found) {
                let k = choose|k: int| 0 <= k < head.len() && head[k] == found;
                assert(ranges[k] == found);
            }
        }
        if found == range || ranges.contains(found) {
            if ranges.contains(found) {
                let k = choose|k: int| 0 <= k < ranges.len() && ranges[k] == found;
                if k < head.len() {
                    assert(head[k] == found);
                }
            }
            if before.contains(found) {
                let k = choose|k: int| 0 <= k < before.len() && before[k] == found;
                assert(out[k] == found);
            }
        }
    }
}

proof fn lemma_sorted_same(ranges: Seq<(usize, usize)>, found: (usize, usize))
    ensures
        line::ranges_sorted(ranges).contains(found) <==> ranges.contains(found),
    decreases ranges.len(),
{
    if ranges.len() > 0 {
        let head = ranges.drop_last();
        lemma_sorted_same(head, found);
        lemma_inserted_same(line::ranges_sorted(head), ranges.last(), found);
        if head.contains(found) {
            let k = choose|k: int| 0 <= k < head.len() && head[k] == found;
            assert(ranges[k] == found);
        }
        if ranges.contains(found) {
            let k = choose|k: int| 0 <= k < ranges.len() && ranges[k] == found;
            if k < head.len() {
                assert(head[k] == found);
            }
        }
        assert(ranges[ranges.len() - 1] == ranges.last());
    }
}

proof fn lemma_lies_in_sorted(ranges: Seq<(usize, usize)>, col: int)
    ensures
        lies_in(line::ranges_sorted(ranges), col) <==> lies_in(ranges, col),
{
    let sorted = line::ranges_sorted(ranges);
    if lies_in(sorted, col) {
        let i = choose|i: int| 0 <= i < sorted.len() && (#[trigger] sorted[i]).0 <= col < sorted[i].1;
        lemma_sorted_same(ranges, sorted[i]);
        let k = choose|k: int| 0 <= k < ranges.len() && ranges[k] == sorted[i];
        assert(ranges[k].0 <= col < ranges[k].1);
    }
    if lies_in(ranges, col) {
        let i = choose|i: int| 0 <= i < ranges.len() && (#[trigger] ranges[i]).0 <= col < ranges[i].1;
        lemma_sorted_same(ranges, ranges[i]);
        let k = choose|k: int| 0 <= k < sorted.len() && sorted[k] == ranges[i];
        assert(sorted[k].0 <= col < sorted[k].1);
    }
}

spec fn marked_as(selected: bool) -> Style {
    if selected {
        colored(Color::White, Color::Rgb(24, 64, 92))
    } else {
        unmarked()
    }
}

proof fn lemma_selection_chars(source: Seq<char>, ranges: Seq<(usize, usize)>)
    requires
        line::in_a_row(ranges, source.len()),
    ensures
        ({
            let (spans, cursor) = line::selection_parts(source, ranges);
            let chars = styled_chars(spans);
            &&& chars.len() == cursor
            &&& forall|i: int|
                0 <= i < cursor ==> (#[trigger] chars[i]) == (
                    source[i],
                    marked_as(lies_in(ranges, i)),
                )
        }),
    decreases ranges.len(),
{
    if ranges.len() > 0 {
        let head = ranges.drop_last();
        line::lemma_selection_parts(source, head);
        line::lemma_selection_parts(source, ranges);
        lemma_selection_chars(source, head);
        let (before, cursor) = line::selection_parts(source, head);
        let (spans, last) = line::selection_parts(source, ranges);
        let (start, end) = ranges[ranges.len() - 1];
        if head.len() > 0 {
            assert(head.last() == ranges[head.len() - 1]);
            assert(ranges[head.len() - 1].1 <= start);
        }
        assert(ranges[ranges.len() - 1].0 <= ranges[ranges.len() - 1].1 <= source.len());
        let gap_text = line::sliced(source, cursor, start as int);
        let gap = if start > cursor {
            before.push((gap_text, style::plain()))
        } else {
            before
        };
        if start > cursor {
            assert(gap.drop_last() =~= before);
        }
        assert(spans.drop_last() =~= gap);
        let chars = styled_chars(spans);
        let early = styled_chars(before);
        let plain = Seq::new((start - cursor) as nat, |i: int| (source[cursor + i], unmarked()));
        let own = Seq::new(
            (end - start) as nat,
            |i: int| (source[start + i], colored(Color::White, Color::Rgb(24, 64, 92))),
        );
        assert(styled_chars(gap) =~= early + plain);
        assert(chars =~= early + plain + own);
        assert forall|i: int| 0 <= i < end implies (#[trigger] chars[i]) == (
            source[i],
            marked_as(lies_in(ranges, i)),
        ) by {
            if i < cursor {
                assert(chars[i] == early[i]);
                if lies_in(head, i) {
                    let k = choose|k: int|
                        0 <= k < head.len() && (#[trigger] head[k]).0 <= i < head[k].1;
                    assert(ranges[k] == head[k]);
                }
                if lies_in(ranges, i) {
                    let k = choose|k: int|
                        0 <= k < ranges.len() && (#[trigger] ranges[k]).0 <= i < ranges[k].1;
                    assert(k < head.len());
                    assert(head[k] == ranges[k]);
                }
            } else if i < start {
                if lies_in(ranges, i) {
                    let k = choose|k: int|
                        0 <= k < ranges.len() && (#[trigger] ranges[k]).0 <= i < ranges[k].1;
                    if k < head.len() {
                        assert(ranges[k].1 <= cursor) by {
                            if k < head.len() - 1 {
                                assert(ranges[k].1 <= ranges[head.len() - 1].0);
                            }
                        }
                    }
                }
            } else {
                assert(ranges[ranges.len() - 1].0 <= i < ranges[ranges.len() - 1].1);
            }
        }
    }
}

/// A line with selected ranges shows its characters in their order, those in a range
/// white on the selection's color, and all others as they are.
pub proof fn selected_characters_stand_out(source: Seq<char>, ranges: Seq<(usize, usize)>)
    requires
        forall|i: int|
            0 <= i < ranges.len() ==> (#[trigger] ranges[i]).0 <= ranges[i].1 <= source.len(),
        forall|i: int, j: int|
            0 <= i < j < ranges.len() ==> (#[trigger] ranges[i]).1 <= (#[trigger] ranges[j]).0
                || ranges[j].1 <= ranges[i].0,
    ensures
        ({
            let chars = styled_chars(line::with_selection(source, ranges));
            &&& chars.len() == source.len()
            &&& forall|i: int|
                0 <= i < source.len() ==> (#[trigger] chars[i]) == (
                    source[i],
                    if exists|k: int|
                        0 <= k < ranges.len() && (#[trigger] ranges[k]).0 <= i < ranges[k].1 {
                        colored(Color::White, Color::Rgb(24, 64, 92))
                    } else {
                        unmarked()
                    },
                )
        }),
{
    assert forall|i: int, j: int| 0 <= i < j < ranges.len() implies line::apart(
        #[trigger] ranges[i],
        #[trigger] ranges[j],
    ) by {}
    let sorted = line::ranges_sorted(ranges);
    line::lemma_ranges_sorted(ranges, source.len());
    line::lemma_selection_parts(source, sorted);
    lemma_selection_chars(source, sorted);
    let (spans, cursor) = line::selection_parts(source, sorted);
    let all = line::with_selection(source, ranges);
    if cursor < source.len() {
        assert(all.drop_last() =~= spans);
    }
    let chars = styled_chars(all);
    let early = styled_chars(spans);
    assert forall|i: int| 0 <= i < source.len() implies (#[trigger] chars[i]) == (
        source[i],
        marked_as(lies_in(ranges, i)),
    ) by {
        lemma_lies_in_sorted(ranges, i);
        if i < cursor {
            assert(chars[i] == early[i]);
        } else if lies_in(sorted, i) {
            let k = choose|k: int|
                0 <= k < sorted.len() && (#[trigger] sorted[k]).0 <= i < sorted[k].1;
            if k < sorted.len() - 1 {
                assert(sorted[k].1 <= sorted[sorted.len() - 1].0);
            }
        }
    }
}

/// The columns of the cursors of a line are those of the cursors that stand in it,
/// and no others; one past the end stands at the end.
pub proof fn cursors_stand_in_their_lines(
    cursors: Seq<(usize, usize)>,
    line: usize,
    len: nat,
    col: usize,
)
    requires
        len <= usize::MAX,
    ensures
        line::cursor_columns(cursors, line, len).contains(col) <==> exists|k: int|
            0 <= k < cursors.len() && (#[trigger] cursors[k]).0 == line && (cursors[k].1 == col
                && col <= len || cursors[k].1 > len && col == len),
    decreases cursors.len(),
{
    let cols = line::cursor_columns(cursors, line, len);
    if cursors.len() > 0 {
        let head = cursors.drop_last();
        let last = cursors.last();
        assert(cursors[cursors.len() - 1] == last);
        cursors_stand_in_their_lines(head, line, len, col);
        let before = line::cursor_columns(head, line, len);
        if before.contains(col) {
            let i = choose|i: int| 0 <= i < before.len() && before[i] == col;
            assert(cols[i] == col);
            let k = choose|k: int|
                0 <= k < head.len() && (#[trigger] head[k]).0 == line && (head[k].1 == col && col
                    <= len || head[k].1 > len && col == len);
            assert(cursors[k] == head[k]);
        }
        if last.0 == line {
            assert(cols[before.len() as int] == if last.1 < len {
                last.1
            } else {
                len as usize
            });
        }
        if cols.contains(col) {
            let i = choose|i: int| 0 <= i < cols.len() && cols[i] == col;
            if i < before.len() {
                assert(before[i] == col);
            }
        }
        if exists|k: int|
            0 <= k < cursors.len() && (#[trigger] cursors[k]).0 == line && (cursors[k].1 == col
                && col <= len || cursors[k].1 > len && col == len) {
            let k = choose|k: int|
                0 <= k < cursors.len() && (#[trigger] cursors[k]).0 == line && (cursors[k].1 == col
                    && col <= len || cursors[k].1 > len && col == len);
            if k < head.len() {
                assert(head[k] == cursors[k]);
            }
        }
    }
}

proof fn lemma_chars_sum(a: Seq<(Seq<char>, Style)>, b: Seq<(Seq<char>, Style)>)
    ensures
        styled_chars(a + b) == styled_chars(a) + styled_chars(b),
    decreases b.len(),
{
    if b.len() > 0 {
        lemma_chars_sum(a, b.drop_last());
        assert((a + b).drop_last() =~= a + b.drop_last());
        assert(styled_chars(a + b) =~= styled_chars(a) + styled_chars(b));
    } else {
        assert(a + b =~= a);
        assert(styled_chars(a + b) =~= styled_chars(a) + styled_chars(b));
    }
}

proof fn lemma_chars_len(spans: Seq<(Seq<char>, Style)>)
    ensures
        styled_chars(spans).len() == line::total_len(spans),
    decreases spans.len(),
{
    if spans.len() > 0 {
        lemma_chars_len(spans.drop_last());
    }
}

/// Pieces of one character each.
proof fn lemma_single_chars(items: Seq<(Seq<char>, Style)>)
    requires
        forall|i: int| 0 <= i < items.len() ==> (#[trigger] items[i]).0.len() == 1,
    ensures
        styled_chars(items) == Seq::new(items.len(), |i: int| (items[i].0[0], items[i].1)),
    decreases items.len(),
{
    let out = Seq::new(items.len(), |i: int| (items[i].0[0], items[i].1));
    if items.len() > 0 {
        let head = items.drop_last();
        assert forall|i: int| 0 <= i < head.len() implies (#[trigger] head[i]).0.len() == 1 by {
            assert(head[i] == items[i]);
        }
        lemma_single_chars(head);
        assert(items[items.len() - 1].0.len() == 1);
        assert(styled_chars(items) =~= out);
    } else {
        assert(styled_chars(items) =~= out);
    }
}

/// Restyling gives every character the style for its own style and column, and
/// leaves it where it is.
pub proof fn restyling_goes_by_column(
    spans: Seq<(Seq<char>, Style)>,
    style_at: spec_fn(Style, int) -> Style,
)
    ensures
        styled_chars(line::restyled(spans, style_at)) == Seq::new(
            styled_chars(spans).len(),
            |i: int| (styled_chars(spans)[i].0, style_at(styled_chars(spans)[i].1, i)),
        ),
    decreases spans.len(),
{
    let wanted = Seq::new(
        styled_chars(spans).len(),
        |i: int| (styled_chars(spans)[i].0, style_at(styled_chars(spans)[i].1, i)),
    );
    if spans.len() > 0 {
        let (text, style) = spans.last();
        let head = spans.drop_last();
        restyling_goes_by_column(head, style_at);
        lemma_chars_len(head);
        let col = line::total_len(head) as int;
        let items = line::restyled_chars(text, style, col, style_at);
        lemma_single_chars(items);
        spans::runs_keep_the_styles(items);
        lemma_chars_sum(line::restyled(head, style_at), spans::runs(items));
        assert(styled_chars(line::restyled(spans, style_at)) =~= wanted);
    } else {
        assert(styled_chars(line::restyled(spans, style_at)) =~= wanted);
    }
}

/// Whether a column is marked as a place where a symbol is used in this way.
pub open spec fn is_used(
    highlights: Seq<LspDocumentHighlight>,
    col: int,
    kind: LspDocumentHighlightKind,
) -> bool {
    exists|i: int|
        0 <= i < highlights.len() && (#[trigger] highlights[i]).kind == kind
            && highlights[i].start_col <= col && col < highlights[i].end_col
}

/// A place where a symbol is written to is shown bold and white on one color; one
/// where it is read, and one where it is mentioned, keep their own foreground on two
/// others. What a column is written to outweighs what is read there, and that
/// outweighs a mention. All other characters stay as they are.
pub proof fn uses_of_symbols_stand_out(
    spans: Seq<(Seq<char>, Style)>,
    highlights: Seq<LspDocumentHighlight>,
)
    ensures
        ({
            let before = styled_chars(spans);
            let after = styled_chars(line::with_highlights(spans, highlights));
            &&& after.len() == before.len()
            &&& forall|i: int|
                0 <= i < before.len() ==> {
                    let style = before[i].1;
                    let used = |kind: LspDocumentHighlightKind| is_used(highlights, i, kind);
                    (#[trigger] after[i]) == (
                        before[i].0,
                        if used(LspDocumentHighlightKind::Write) {
                            Style {
                                fg: Some(Color::White),
                                bg: Some(Color::Rgb(91, 56, 38)),
                                bold: true,
                                ..style
                            }
                        } else if used(LspDocumentHighlightKind::Read) {
                            Style { bg: Some(Color::Rgb(28, 71, 58)), ..style }
                        } else if used(LspDocumentHighlightKind::Text) {
                            Style { bg: Some(Color::Rgb(43, 54, 79)), ..style }
                        } else {
                            style
                        },
                    )
                }
        }),
{
    let before = styled_chars(spans);
    let after = styled_chars(line::with_highlights(spans, highlights));
    restyling_goes_by_column(spans, line::highlighting(highlights));
    assert forall|i: int, kind: LspDocumentHighlightKind|
        #[trigger] is_used(highlights, i, kind) <==> line::highlighted_as(highlights, i, kind) by {
        if is_used(highlights, i, kind) {
            let k = choose|k: int|
                0 <= k < highlights.len() && (#[trigger] highlights[k]).kind == kind
                    && highlights[k].start_col <= i && i < highlights[k].end_col;
            assert(highlights[k].kind == kind);
        }
    }
}

/// A character under a cursor is shown black on the cursor's color, and all others
/// as they are. A cursor behind the last character is shown as a space.
pub proof fn cursors_stand_on_their_characters(
    spans: Seq<(Seq<char>, Style)>,
    cols: Seq<usize>,
)
    requires
        styled_chars(spans).len() <= usize::MAX,
        forall|i: int| 0 <= i < cols.len() ==> #[trigger] cols[i] <= styled_chars(spans).len(),
    ensures
        ({
            let before = styled_chars(spans);
            let after = styled_chars(line::with_cursors(spans, cols));
            let cursor = colored(Color::Black, Color::Rgb(89, 169, 255));
            let at_end = exists|k: int| 0 <= k < cols.len() && #[trigger] cols[k] == before.len();
            &&& after.len() == before.len() + (if at_end {
                1int
            } else {
                0
            })
            &&& forall|i: int|
                0 <= i < before.len() ==> (#[trigger] after[i]) == (
                    before[i].0,
                    if exists|k: int| 0 <= k < cols.len() && #[trigger] cols[k] == i {
                        cursor
                    } else {
                        before[i].1
                    },
                )
            &&& at_end ==> after[before.len() as int] == (' ', cursor)
        }),
{
    let before = styled_chars(spans);
    let len = before.len();
    lemma_chars_len(spans);
    if cols.len() > 0 {
        let items = line::cursor_chars(spans, cols);
        lemma_cursor_chars(spans, cols);
        lemma_single_chars(items);
        spans::runs_keep_the_styles(items);
        lemma_distinct_end(cols, len);
        let extra = line::distinct_from(cols, len);
        reveal_strlit(" ");
        let tail = Seq::new(extra, |i: int| (" "@, style::cursor_style()));
        lemma_chars_sum(spans::runs(items), tail);
        assert forall|i: int| 0 <= i < tail.len() implies (#[trigger] tail[i]).0.len() == 1 by {}
        lemma_single_chars(tail);
        let after = styled_chars(line::with_cursors(spans, cols));
        assert(after == styled_chars(items) + styled_chars(tail));
        assert(cols.contains(len as usize) <==> exists|k: int|
            0 <= k < cols.len() && #[trigger] cols[k] == len) by {
            if exists|k: int| 0 <= k < cols.len() && #[trigger] cols[k] == len {
                let k = choose|k: int| 0 <= k < cols.len() && #[trigger] cols[k] == len;
                assert(cols[k] == len as usize);
            }
        }
    }
}

proof fn lemma_cursor_chars(spans: Seq<(Seq<char>, Style)>, cols: Seq<usize>)
    ensures
        ({
            let items = line::cursor_chars(spans, cols);
            let chars = styled_chars(spans);
            &&& items.len() == chars.len()
            &&& forall|i: int|
                0 <= i < items.len() ==> (#[trigger] items[i]) == (
                    seq![chars[i].0],
                    line::under_cursors(cols)(chars[i].1, i),
                )
        }),
    decreases spans.len(),
{
    if spans.len() > 0 {
        let head = spans.drop_last();
        lemma_cursor_chars(head, cols);
        lemma_chars_len(head);
        let items = line::cursor_chars(spans, cols);
        let early = line::cursor_chars(head, cols);
        let chars = styled_chars(spans);
        assert forall|i: int| 0 <= i < items.len() implies (#[trigger] items[i]) == (
            seq![chars[i].0],
            line::under_cursors(cols)(chars[i].1, i),
        ) by {
            if i < early.len() {
                assert(items[i] == early[i]);
                assert(chars[i] == styled_chars(head)[i]);
            }
        }
    }
}

proof fn lemma_distinct_end(cols: Seq<usize>, len: nat)
    requires
        forall|i: int| 0 <= i < cols.len() ==> #[trigger] cols[i] <= len,
    ensures
        line::distinct_from(cols, len) == if cols.contains(len as usize) && len <= usize::MAX {
            1nat
        } else {
            0
        },
    decreases cols.len(),
{
    if cols.len() > 0 {
        let head = cols.drop_last();
        assert forall|i: int| 0 <= i < head.len() implies #[trigger] head[i] <= len by {
            assert(head[i] == cols[i]);
        }
        lemma_distinct_end(head, len);
        assert(cols[cols.len() - 1] <= len);
        if head.contains(len as usize) {
            let k = choose|k: int| 0 <= k < head.len() && head[k] == len as usize;
            assert(cols[k] == len as usize);
        }
        if cols.contains(len as usize) {
            let k = choose|k: int| 0 <= k < cols.len() && cols[k] == len as usize;
            if k < head.len() {
                assert(head[k] == len as usize);
            }
        }
        if cols.last() == len {
            assert(cols[cols.len() - 1] == len as usize);
        }
    }
}

proof fn lemma_range_at(ranges: Seq<(usize, usize)>, col: int)
    ensures
        match line::range_at(ranges, col) {
            Some(range) => ranges.contains(range) && range.0 <= col < range.1,
            None => !lies_in(ranges, col),
        },
    decreases ranges.len(),
{
    if ranges.len() > 0 {
        let rest = ranges.drop_first();
        lemma_range_at(rest, col);
        assert(ranges.contains(ranges[0]));
        match line::range_at(rest, col) {
            Some(range) => {
                let k = choose|k: int| 0 <= k < rest.len() && rest[k] == range;
                assert(ranges[k + 1] == range);
            },
            None => {
                if lies_in(ranges, col) {
                    let k = choose|k: int|
                        0 <= k < ranges.len() && (#[trigger] ranges[k]).0 <= col < ranges[k].1;
                    if k > 0 {
                        assert(rest[k - 1] == ranges[k]);
                    }
                }
            },
        }
    }
}

/// In a line in which a text is found, the characters of what is found stand out:
/// black on one color where the cursor is at the start of it, and white on another
/// elsewhere. The cursor stands out where nothing is found, also as a space behind
/// the line. All other characters are as they are. A line in which the text is not
/// found is not shown so.
pub proof fn found_text_stands_out(
    source: Seq<char>,
    needle: Seq<char>,
    cursor: Option<usize>,
)
    requires
        source.len() <= usize::MAX,
    ensures
        ({
            let found = search::ranges(source, needle);
            let shown = line::with_search(source, needle, cursor);
            &&& shown is Some <==> found.len() > 0
            &&& shown is Some ==> {
                let chars = styled_chars(shown->0);
                let at_end = cursor is Some && cursor->0 == source.len();
                let under = colored(Color::Black, Color::Rgb(89, 169, 255));
                &&& chars.len() == source.len() + (if at_end {
                    1int
                } else {
                    0
                })
                &&& at_end ==> chars[source.len() as int] == (' ', under)
                &&& forall|i: int, k: int|
                    0 <= i < source.len() && 0 <= k < found.len() && found[k].0 <= i < found[k].1
                        ==> #[trigger] chars[i] == (
                        source[i],
                        if cursor == Some((#[trigger] found[k]).0) {
                            colored(Color::Black, Color::Rgb(222, 184, 75))
                        } else {
                            colored(Color::White, Color::Rgb(104, 76, 28))
                        },
                    )
                &&& forall|i: int|
                    0 <= i < source.len() && !lies_in(found, i) ==> #[trigger] chars[i] == (
                        source[i],
                        if cursor is Some && cursor->0 == i {
                            under
                        } else {
                            unmarked()
                        },
                    )
            }
        }),
{
    let found = search::ranges(source, needle);
    let shown = line::with_search(source, needle, cursor);
    if found.len() > 0 {
        let items = line::search_chars(source, found, cursor);
        lemma_single_chars(items);
        spans::runs_keep_the_styles(items);
        search::found_ranges_hold_the_text(source, needle);
        reveal_strlit(" ");
        let runs = spans::runs(items);
        if shown->0.len() > runs.len() {
            assert(shown->0.drop_last() =~= runs);
        }
        let chars = styled_chars(shown->0);
        assert forall|i: int, k: int|
            0 <= i < source.len() && 0 <= k < found.len() && found[k].0 <= i < found[k].1 implies (
        #[trigger] chars[i]) == (
            source[i],
            if cursor == Some((#[trigger] found[k]).0) {
                colored(Color::Black, Color::Rgb(222, 184, 75))
            } else {
                colored(Color::White, Color::Rgb(104, 76, 28))
            },
        ) by {
            lemma_range_at(found, i);
            let range = line::range_at(found, i);
            if range is None {
                assert(found[k].0 <= i < found[k].1);
                assert(lies_in(found, i));
            }
            let j = choose|j: int| 0 <= j < found.len() && found[j] == range->0;
            if j < k {
                assert(found[j].1 <= found[k].0);
            } else if k < j {
                assert(found[k].1 <= found[j].0);
            }
        }
        assert forall|i: int| 0 <= i < source.len() && !lies_in(found, i) implies (
        #[trigger] chars[i]) == (
            source[i],
            if cursor is Some && cursor->0 == i {
                colored(Color::Black, Color::Rgb(89, 169, 255))
            } else {
                unmarked()
            },
        ) by {
            lemma_range_at(found, i);
            if let Some(range) = line::range_at(found, i) {
                let j = choose|j: int| 0 <= j < found.len() && found[j] == range;
                assert(found[j].0 <= i < found[j].1);
            }
        }
    }
}

proof fn lemma_found_style(style: Style, ranges: Seq<(usize, usize, bool)>, col: int)
    ensures
        (forall|k: int| 0 <= k < ranges.len() ==> !((#[trigger] ranges[k]).0 <= col < ranges[k].1))
            ==> line::found_style(style, ranges, col) == style,
        forall|k: int|
            0 <= k < ranges.len() && (#[trigger] ranges[k]).0 <= col < ranges[k].1 && (forall|j: int|
                k < j < ranges.len() ==> !((#[trigger] ranges[j]).0 <= col < ranges[j].1))
                ==> line::found_style(style, ranges, col) == (Style {
                fg: Some(
                    if ranges[k].2 {
                        Color::Black
                    } else {
                        Color::White
                    },
                ),
                bg: Some(
                    if ranges[k].2 {
                        Color::Rgb(222, 184, 75)
                    } else {
                        Color::Rgb(104, 76, 28)
                    },
                ),
                ..style
            }),
    decreases ranges.len(),
{
    if ranges.len() > 0 {
        let head = ranges.drop_last();
        let last = ranges[ranges.len() - 1];
        lemma_found_style(style, head, col);
        lemma_found_keeps(style, head, col);
        assert forall|k: int| 0 <= k < head.len() implies (#[trigger] head[k]) == ranges[k] by {}
        if forall|k: int|
            0 <= k < ranges.len() ==> !((#[trigger] ranges[k]).0 <= col < ranges[k].1) {
            assert(!(ranges[ranges.len() - 1].0 <= col < ranges[ranges.len() - 1].1));
            assert forall|k: int| 0 <= k < head.len() implies !((#[trigger] head[k]).0 <= col
                < head[k].1) by {
                assert(ranges[k] == head[k]);
            }
        }
        assert forall|k: int|
            0 <= k < ranges.len() && (#[trigger] ranges[k]).0 <= col < ranges[k].1 && (forall|j: int|
                k < j < ranges.len() ==> !((#[trigger] ranges[j]).0 <= col < ranges[j].1)) implies line::found_style(
        style, ranges, col) == (Style {
            fg: Some(
                if ranges[k].2 {
                    Color::Black
                } else {
                    Color::White
                },
            ),
            bg: Some(
                if ranges[k].2 {
                    Color::Rgb(222, 184, 75)
                } else {
                    Color::Rgb(104, 76, 28)
                },
            ),
            ..style
        }) by {
            if k < head.len() {
                assert(!(ranges[ranges.len() - 1].0 <= col < ranges[ranges.len() - 1].1));
                assert(head[k] == ranges[k]);
                assert forall|j: int| k < j < head.len() implies !((#[trigger] head[j]).0 <= col
                    < head[j].1) by {
                    assert(ranges[j] == head[j]);
                }
            }
        }
    }
}

proof fn lemma_found_keeps(style: Style, ranges: Seq<(usize, usize, bool)>, col: int)
    ensures
        ({
            let found = line::found_style(style, ranges, col);
            &&& found.bold == style.bold
            &&& found.dim == style.dim
            &&& found.italic == style.italic
            &&& found.underlined == style.underlined
        }),
    decreases ranges.len(),
{
    if ranges.len() > 0 {
        lemma_found_keeps(style, ranges.drop_last(), col);
    }
}

/// A row of the terminal keeps its characters. Where something is laid over it, what
/// was found last outweighs the selection, and that outweighs a link: found text is
/// black or white on the two colors of a search, selected text is black on the
/// accent, and a link is underlined in it. Everything else is shown as the program
/// wrote it.
pub proof fn terminal_rows_show_what_is_laid_over_them(
    row: Seq<(Seq<char>, TerminalStyle)>,
    overlay: Overlay,
    i: int,
)
    requires
        0 <= i < styled_chars(line::shown_row(row)).len(),
    ensures
        ({
            let before = styled_chars(line::shown_row(row));
            let after = styled_chars(line::shown_terminal_row(row, overlay));
            let accent = Color::Rgb(89, 169, 255);
            let own = before[i].1;
            let linked = exists|k: int|
                0 <= k < overlay.links.len() && (#[trigger] overlay.links[k]).0 <= i
                    < overlay.links[k].1;
            let selected = overlay.selection matches Some((start, end)) && start <= i < end;
            let under = if selected {
                Style { fg: Some(Color::Black), bg: Some(accent), ..own }
            } else if linked {
                Style { fg: Some(accent), underlined: true, ..own }
            } else {
                own
            };
            let found = overlay.found;
            &&& i < after.len()
            &&& after[i].0 == before[i].0
            &&& (forall|k: int|
                0 <= k < found.len() ==> !((#[trigger] found[k]).0 <= i < found[k].1))
                ==> after[i].1 == under
            &&& forall|k: int|
                0 <= k < found.len() && (#[trigger] found[k]).0 <= i < found[k].1 && (forall|j: int|
                    k < j < found.len() ==> !((#[trigger] found[j]).0 <= i < found[j].1))
                    ==> after[i].1 == (Style {
                    fg: Some(
                        if found[k].2 {
                            Color::Black
                        } else {
                            Color::White
                        },
                    ),
                    bg: Some(
                        if found[k].2 {
                            Color::Rgb(222, 184, 75)
                        } else {
                            Color::Rgb(104, 76, 28)
                        },
                    ),
                    ..under
                })
        }),
{
    let base = line::shown_row(row);
    let before = styled_chars(base);
    let used = Overlay {
        selection: match overlay.selection {
            Some((start, end)) => if end > start {
                Some((start, end))
            } else {
                None
            },
            None => None,
        },
        ..overlay
    };
    restyling_goes_by_column(base, line::overlaying(used));
    let styled = line::restyled(base, line::overlaying(used));
    let out = line::shown_terminal_row(row, overlay);
    let bare = overlay.selection is None && overlay.found.len() == 0 && overlay.links.len() == 0;
    if !bare && out.len() > styled.len() {
        assert(out.drop_last() =~= styled);
    }
    let own = before[i].1;
    assert(line::in_ranges(overlay.links, i) <==> exists|k: int|
        0 <= k < overlay.links.len() && (#[trigger] overlay.links[k]).0 <= i < overlay.links[k].1);
    let under = line::overlay_style(own, Overlay { found: Seq::empty(), ..used }, i);
    lemma_found_style(under, overlay.found, i);
}

/// A selection that goes on past the text of a row is shown there as spaces, up to
/// its end.
pub proof fn terminal_selections_go_on_past_the_text(
    row: Seq<(Seq<char>, TerminalStyle)>,
    overlay: Overlay,
)
    ensures
        ({
            let len = styled_chars(line::shown_row(row)).len() as int;
            let after = styled_chars(line::shown_terminal_row(row, overlay));
            match overlay.selection {
                Some((start, end)) => if start < end && end > len {
                    let from = if start > len {
                        start as int
                    } else {
                        len
                    };
                    &&& after.len() == len + (end - from)
                    &&& forall|i: int|
                        len <= i < after.len() ==> (#[trigger] after[i]) == (
                            ' ',
                            colored(Color::Black, Color::Rgb(89, 169, 255)),
                        )
                } else {
                    after.len() == len
                },
                None => after.len() == len,
            }
        }),
{
    let base = line::shown_row(row);
    lemma_chars_len(base);
    let used = Overlay {
        selection: match overlay.selection {
            Some((start, end)) => if end > start {
                Some((start, end))
            } else {
                None
            },
            None => None,
        },
        ..overlay
    };
    restyling_goes_by_column(base, line::overlaying(used));
    let styled = line::restyled(base, line::overlaying(used));
    let out = line::shown_terminal_row(row, overlay);
    let bare = overlay.selection is None && overlay.found.len() == 0 && overlay.links.len() == 0;
    if !bare && out.len() > styled.len() {
        assert(out.drop_last() =~= styled);
    }
}

/// The cells of a terminal row are shown in their order, each run in its style.
pub proof fn terminal_runs_are_shown_in_their_styles(
    row: Seq<(Seq<char>, TerminalStyle)>,
    i: int,
)
    requires
        0 <= i < styled_chars(row).len(),
    ensures
        styled_chars(line::shown_row(row)).len() == styled_chars(row).len(),
        styled_chars(line::shown_row(row))[i] == (
            styled_chars(row)[i].0,
            style::shown_style(styled_chars(row)[i].1),
        ),
    decreases row.len(),
{
    lemma_shown_row_chars(row);
}

proof fn lemma_shown_row_chars(row: Seq<(Seq<char>, TerminalStyle)>)
    ensures
        styled_chars(line::shown_row(row)) == Seq::new(
            styled_chars(row).len(),
            |i: int| (styled_chars(row)[i].0, style::shown_style(styled_chars(row)[i].1)),
        ),
    decreases row.len(),
{
    let wanted = Seq::new(
        styled_chars(row).len(),
        |i: int| (styled_chars(row)[i].0, style::shown_style(styled_chars(row)[i].1)),
    );
    if row.len() > 0 {
        lemma_shown_row_chars(row.drop_last());
        assert(line::shown_row(row).drop_last() =~= line::shown_row(row.drop_last()));
        assert(styled_chars(line::shown_row(row)) =~= wanted);
    } else {
        assert(styled_chars(line::shown_row(row)) =~= wanted);
    }
}

} // verus!
