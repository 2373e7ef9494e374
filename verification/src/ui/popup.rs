//! The windows over the rest of the screen: what is known of the symbol under
//! the mouse, and the panel to choose from a list.

use vstd::prelude::*;

use crate::path::FsPath;
use crate::path::Platform;
use crate::text;
use crate::ui::area::Rect;
use crate::ui::label;
use crate::ui::label::HoverTarget;
use crate::ui::label::QuickPanelKind;
use crate::ui::line;
use crate::ui::line::Span;
use crate::ui::list;
use crate::ui::list::ListDrawing;
use crate::ui::list::ListView;
use crate::ui::op;
use crate::ui::op::DrawOp;
use crate::ui::op::LineView;
use crate::ui::op::OpView;
use crate::ui::op::StyledLine;
use crate::ui::status;
use crate::ui::style;
use crate::ui::width;

verus! {

/// Where a symbol is defined.
#[derive(Debug, Clone, PartialEq, Eq)]
pub struct SymbolLocation {
    pub path: FsPath,
    /// The path as text, and the platform that writes it so.
    pub display: String,
    pub platform: Platform,
    pub line: usize,
    pub col: usize,
}

/// What is known of the symbol under the mouse.
#[derive(Debug, Clone, PartialEq, Eq)]
pub struct SymbolHover {
    pub symbol: String,
    pub definition_count: usize,
    pub reference_count: usize,
    pub definition: Option<SymbolLocation>,
    pub definition_detail: Option<String>,
    pub definition_preview: Option<String>,
}

/// The start of a text, or nothing where there is none.
pub open spec fn start_of(text: Option<String>) -> Seq<char> {
    match text {
        Some(text) => width::truncated(text@, 72),
        None => status::nothing(),
    }
}

fn start_text(text: &Option<String>) -> (out: String)
    ensures
        out@ == start_of(*text),
{
    match text {
        Some(text) => width::truncate_width(text, 72),
        None => {
            let out = String::new();
            proof {
                assert(out@ =~= status::nothing());
            }
            out
        },
    }
}

/// The line that says where a symbol is defined.
pub open spec fn definition_text(definition: Option<SymbolLocation>, root: FsPath) -> Seq<char> {
    match definition {
        Some(location) => "def "@ + label::relative_text(
            location.path@,
            root@,
            location.display@,
            location.platform,
        ) + ":"@ + text::decimal((location.line + 1) as nat) + ":"@ + text::decimal(
            (location.col + 1) as nat,
        ),
        None => "def not found"@,
    }
}

fn definition_line(definition: &Option<SymbolLocation>, root: &FsPath) -> (out: String)
    ensures
        out@ == definition_text(*definition, *root),
{
    match definition {
        Some(location) => {
            let mut out = "def ".to_owned();
            let path = label::relative_label(
                &location.path,
                root,
                &location.display,
                location.platform,
            );
            out.append(&path);
            out.append(":");
            status::push_ordinal(&mut out, location.line);
            out.append(":");
            status::push_ordinal(&mut out, location.col);
            out
        },
        None => "def not found".to_owned(),
    }
}

/// The lines that say what is known of a symbol.
pub open spec fn hover_rows(hover: SymbolHover, root: FsPath) -> Seq<Seq<char>> {
    let counts = hover.symbol@ + "  defs:"@ + text::decimal(hover.definition_count as nat)
        + " refs:"@ + text::decimal(hover.reference_count as nat);
    let definition = definition_text(hover.definition, root);
    let detail = start_of(hover.definition_detail);
    let preview = start_of(hover.definition_preview);
    let rows = Seq::<Seq<char>>::empty().push(counts).push(
        if detail.len() == 0 {
            definition
        } else {
            definition + "  "@ + detail
        },
    );
    if preview.len() == 0 {
        rows
    } else {
        rows.push(preview)
    }
}

/// The lines that say what is known of a symbol.
pub fn hover_lines(hover: &SymbolHover, root: &FsPath) -> (rows: Vec<String>)
    ensures
        text::texts(rows@) == hover_rows(*hover, *root),
        2 <= rows@.len() <= 3,
{
    let mut counts = hover.symbol.clone();
    counts.append("  defs:");
    status::push_number(&mut counts, hover.definition_count);
    counts.append(" refs:");
    status::push_number(&mut counts, hover.reference_count);
    let mut definition = definition_line(&hover.definition, root);
    let detail = start_text(&hover.definition_detail);
    let preview = start_text(&hover.definition_preview);
    if text::count(&detail) != 0 {
        definition.append("  ");
        definition.append(&detail);
    }
    let mut rows: Vec<String> = Vec::new();
    rows.push(counts);
    rows.push(definition);
    if text::count(&preview) != 0 {
        rows.push(preview);
    }
    proof {
        assert(text::texts(rows@) =~= hover_rows(*hover, *root));
    }
    rows
}

/// The largest of several widths.
pub open spec fn widest(widths: Seq<usize>) -> nat
    decreases widths.len(),
{
    if widths.len() == 0 {
        0
    } else {
        let before = widest(widths.drop_last());
        if widths.last() > before {
            widths.last() as nat
        } else {
            before
        }
    }
}

/// The widths of several texts.
pub open spec fn widths_of(rows: Seq<Seq<char>>) -> Seq<usize> {
    Seq::new(rows.len(), |i: int| width::display_width(rows[i]))
}

fn widest_of(rows: &Vec<String>) -> (widest_row: usize)
    ensures
        widest_row == widest(widths_of(text::texts(rows@))),
{
    let mut found: usize = 0;
    let ghost widths = widths_of(text::texts(rows@));
    for i in 0..rows.len()
        invariant
            widths == widths_of(text::texts(rows@)),
            widths.len() == rows@.len(),
            found == widest(widths.take(i as int)),
    {
        let own: usize = width::text_width(&rows[i]);
        proof {
            assert(widths.take(i + 1).drop_last() =~= widths.take(i as int));
            assert(widths[i as int] == own);
        }
        if own > found {
            found = own;
        }
    }
    proof {
        assert(widths.take(widths.len() as int) =~= widths);
    }
    found
}

/// The smaller of two numbers.
pub open spec fn smaller(a: int, b: int) -> int {
    if a < b {
        a
    } else {
        b
    }
}

/// The larger of two numbers.
pub open spec fn larger(a: int, b: int) -> int {
    if a < b {
        b
    } else {
        a
    }
}

/// The width of a popup over an area, for a text of a width.
pub open spec fn popup_width(area: Rect, text_width: usize) -> int {
    smaller(smaller(larger(text_width as int, 24), 76) + 4, area.width as int)
}

/// The height of a popup over an area, for a number of lines.
pub open spec fn popup_height(area: Rect, rows: nat) -> int {
    smaller((rows + 2) as int, area.height as int)
}

/// Where a popup stands: to the right of the mouse and below it, further to the
/// left where it would leave the area, and above the mouse where it would leave
/// the area at the bottom.
pub open spec fn popup_rect(
    area: Rect,
    text_width: usize,
    rows: nat,
    mouse_x: u16,
    mouse_y: u16,
) -> Rect {
    let width = popup_width(area, text_width);
    let height = popup_height(area, rows);
    let last = u16::MAX as int;
    let x = smaller(mouse_x + 1, last);
    let y = smaller(mouse_y + 1, last);
    let x = if smaller(x + width, last) > area.end_x() {
        area.end_x() - width
    } else {
        x
    };
    let y = if smaller(y + height, last) > area.end_y() {
        larger(mouse_y - height, 0)
    } else {
        y
    };
    Rect::cut(
        larger(x, area.x as int) as u16,
        larger(y, area.y as int) as u16,
        width as u16,
        height as u16,
    )
}

/// A popup lies in its area, unless the mouse is below it.
pub proof fn popups_stay_in_their_area(
    area: Rect,
    text_width: usize,
    rows: nat,
    mouse_x: u16,
    mouse_y: u16,
)
    requires
        area.wf(),
        mouse_y <= area.end_y(),
    ensures
        area.holds(popup_rect(area, text_width, rows, mouse_x, mouse_y)),
{
}

/// The size of a popup over an area.
fn popup_size(area: Rect, text_width: usize, rows: usize) -> (size: (u16, u16))
    ensures
        size.0 == popup_width(area, text_width),
        size.1 == popup_height(area, rows as nat),
{
    let text_columns: u16 = if text_width < 24 {
        24
    } else if text_width > 76 {
        76
    } else {
        text_width as u16
    };
    let width: u16 = if text_columns + 4 < area.width {
        text_columns + 4
    } else {
        area.width
    };
    let height: u16 = if area.height >= 2 && rows < area.height as usize - 2 {
        rows as u16 + 2
    } else {
        area.height
    };
    (width, height)
}

/// Where a popup stands.
pub fn popup_area(area: Rect, text_width: usize, rows: usize, mouse_x: u16, mouse_y: u16) -> (popup:
    Rect)
    requires
        area.wf(),
    ensures
        popup == popup_rect(area, text_width, rows as nat, mouse_x, mouse_y),
        popup.wf(),
{
    let (width, height) = popup_size(area, text_width, rows);
    let mut x: u16 = mouse_x.saturating_add(1);
    if x.saturating_add(width) > area.right() {
        x = area.right().saturating_sub(width);
    }
    let mut y: u16 = mouse_y.saturating_add(1);
    if y.saturating_add(height) > area.bottom() {
        y = mouse_y.saturating_sub(height);
    }
    if x < area.x {
        x = area.x;
    }
    if y < area.y {
        y = area.y;
    }
    Rect::new(x, y, width, height)
}

/// A line of one plain text.
pub open spec fn plain_line(text: Seq<char>) -> LineView {
    LineView {
        spans: line::no_spans().push((text, style::plain())),
        style: style::plain(),
    }
}

/// The steps that draw lines in a popup.
pub open spec fn popup_ops(popup: Rect, rows: Seq<Seq<char>>) -> Seq<OpView> {
    let inner = popup.within_border();
    op::no_ops().push(OpView::Clear(popup)).push(
        (OpView::Panel {
            area: popup,
            title: " Hover "@,
            border: style::plain().fg(style::accent()),
        }),
    ).push(
        (OpView::Lines {
            area: inner,
            lines: Seq::new(
                rows.len(),
                |i: int| plain_line(width::truncated(rows[i], inner.width as int)),
            ),
            style: style::body_style(),
        }),
    )
}

/// Draws lines in a popup.
pub fn draw_popup(popup: Rect, rows: &Vec<String>) -> (ops: Vec<DrawOp>)
    requires
        popup.wf(),
    ensures
        op::ops_view(ops@) == popup_ops(popup, text::texts(rows@)),
{
    let inner = popup.inner();
    let mut lines: Vec<StyledLine> = Vec::new();
    for i in 0..rows.len()
        invariant
            lines@.len() == i,
            forall|j: int|
                0 <= j < i ==> (#[trigger] lines@[j])@ == plain_line(
                    width::truncated(rows@[j]@, inner.width as int),
                ),
    {
        let text = width::truncate_width(&rows[i], inner.width as usize);
        let mut spans: Vec<Span> = Vec::new();
        proof {
            assert(line::spans_view(spans@) =~= line::no_spans());
        }
        line::push_span(&mut spans, &text, style::plain());
        lines.push(StyledLine { spans, style: style::plain() });
    }
    let ghost shown = op::lines_view(lines@);
    let mut ops = op::none();
    op::push(&mut ops, DrawOp::Clear(popup));
    op::push(
        &mut ops,
        DrawOp::Panel {
            area: popup,
            title: " Hover ".to_owned(),
            border: style::plain().fg(style::accent()),
        },
    );
    op::push(&mut ops, DrawOp::Lines { area: inner, lines, style: style::body_style() });
    proof {
        let all = text::texts(rows@);
        assert(shown =~= Seq::new(
            all.len(),
            |i: int| plain_line(width::truncated(all[i], inner.width as int)),
        ));
    }
    ops
}

/// What decides whether a symbol is explained, and where.
#[derive(Debug, Clone, PartialEq, Eq)]
pub struct HoverState {
    pub hover: Option<SymbolHover>,
    /// The user is asked something, or chooses from a list.
    pub asking: bool,
    /// There is an editor on the screen.
    pub editor_shown: bool,
    pub mouse_x: u16,
    pub mouse_y: u16,
}

/// The steps that explain the symbol under the mouse. Nothing is drawn while
/// the user is asked something, without an editor, or in an area of less than
/// eight columns or four rows.
pub open spec fn hover_ops(state: HoverState, root: FsPath, area: Rect) -> Seq<OpView> {
    match state.hover {
        Some(hover) if !state.asking && state.editor_shown && area.width >= 8 && area.height
            >= 4 => {
            let rows = hover_rows(hover, root);
            popup_ops(
                popup_rect(
                    area,
                    widest(widths_of(rows)) as usize,
                    rows.len(),
                    state.mouse_x,
                    state.mouse_y,
                ),
                rows,
            )
        },
        _ => op::no_ops(),
    }
}

/// Explains the symbol under the mouse.
pub fn draw_editor_hover(state: &HoverState, root: &FsPath, area: Rect) -> (ops: Vec<DrawOp>)
    requires
        area.wf(),
    ensures
        op::ops_view(ops@) == hover_ops(*state, *root, area),
{
    if state.asking || !state.editor_shown || area.width < 8 || area.height < 4 {
        return op::none();
    }
    match &state.hover {
        Some(hover) => {
            let rows = hover_lines(hover, root);
            let text_width: usize = widest_of(&rows);
            let popup = popup_area(area, text_width, rows.len(), state.mouse_x, state.mouse_y);
            draw_popup(popup, &rows)
        },
        None => op::none(),
    }
}

/// An item to choose.
#[derive(Debug, Clone, PartialEq, Eq)]
pub struct QuickItem {
    pub label: String,
    pub detail: String,
    pub preview: Option<String>,
}

/// The panel to choose from a list.
#[derive(Debug, Clone, PartialEq, Eq)]
pub struct QuickPanel {
    pub kind: QuickPanelKind,
    /// The text to search for, with the cursor in it.
    pub query: String,
    pub items: Vec<QuickItem>,
    pub scroll: usize,
    pub selected: usize,
    pub hover: HoverTarget,
}

/// A number held between two bounds.
pub open spec fn between(n: int, low: int, high: int) -> int {
    smaller(larger(n, low), high)
}

/// Where the panel stands over an area: in the middle, one row below the top.
pub open spec fn quick_rect(area: Rect) -> Rect {
    let width = smaller(between(area.width - 4, 24, 82), area.width as int);
    let height = smaller(between(area.height - 2, 6, 18), area.height as int);
    Rect::cut(
        (area.x + (area.width - width) / 2) as u16,
        (area.y + 1) as u16,
        width as u16,
        height as u16,
    )
}

pub fn quick_area(area: Rect) -> (panel: Rect)
    requires
        area.wf(),
        area.y < u16::MAX,
    ensures
        panel == quick_rect(area),
        panel.wf(),
{
    let width: u16 = area.width.saturating_sub(4);
    let width: u16 = if width < 24 {
        24
    } else if width > 82 {
        82
    } else {
        width
    };
    let width: u16 = if width < area.width {
        width
    } else {
        area.width
    };
    let height: u16 = area.height.saturating_sub(2);
    let height: u16 = if height < 6 {
        6
    } else if height > 18 {
        18
    } else {
        height
    };
    let height: u16 = if height < area.height {
        height
    } else {
        area.height
    };
    Rect::new(area.x + (area.width - width) / 2, area.y + 1, width, height)
}

/// The text of an item.
pub open spec fn quick_item_text(item: QuickItem) -> Seq<char> {
    item.label@ + "  "@ + item.detail@ + status::headed("  "@, text::maybe(item.preview))
}

pub fn quick_item(item: &QuickItem) -> (out: String)
    ensures
        out@ == quick_item_text(*item),
{
    let mut out = item.label.clone();
    out.append("  ");
    out.append(&item.detail);
    status::push_headed(&mut out, "  ", &item.preview);
    out
}

/// What is drawn of the panel.
pub open spec fn quick_view(panel: QuickPanel, area: Rect) -> ListView {
    let outer = quick_rect(area);
    let inner = outer.within_border();
    let len = panel.items@.len();
    let first = list::first_row(len, inner.height as nat, panel.scroll as nat);
    let count = list::shown_rows(len, inner.height as nat, panel.scroll as nat);
    let frame = op::no_ops().push(OpView::Clear(outer)).push(
        (OpView::Panel {
            area: outer,
            title: label::quick_title_text(panel.kind) + "  "@ + panel.query@ + " "@,
            border: style::plain().fg(style::accent()),
        }),
    );
    ListView {
        ops: if len == 0 {
            frame.push(
                (OpView::Label {
                    area: inner,
                    text: label::quick_empty_text(panel.kind),
                    style: style::muted_style(),
                }),
            )
        } else {
            frame + list::row_ops(
                inner,
                first,
                count,
                |i: int| quick_item_text(panel.items@[i]),
                |i: int|
                    style::row_style(
                        panel.selected == i,
                        panel.hover == HoverTarget::QuickRow(i as usize),
                    ),
            )
        },
        rows: list::row_rects(inner, first, count),
        height: inner.height as nat,
        scroll: first,
    }
}

/// Draws the panel to choose from a list.
pub fn draw_quick_panel(panel: &QuickPanel, area: Rect) -> (drawing: ListDrawing)
    requires
        area.wf(),
        area.y < u16::MAX,
    ensures
        drawing@ == quick_view(*panel, area),
{
    let outer = quick_area(area);
    let inner = outer.inner();
    let mut title = label::quick_title(panel.kind).to_owned();
    title.append("  ");
    title.append(&panel.query);
    title.append(" ");
    let mut ops = op::none();
    op::push(&mut ops, DrawOp::Clear(outer));
    op::push(
        &mut ops,
        DrawOp::Panel { area: outer, title, border: style::plain().fg(style::accent()) },
    );
    let len: usize = panel.items.len();
    let (first, count) = list::window(len, inner.height, panel.scroll);
    let mut rows: Vec<(Rect, usize)> = Vec::new();
    let ghost wanted = quick_view(*panel, area);
    if len == 0 {
        op::push_label(&mut ops, inner, label::quick_empty(panel.kind), style::muted_style());
        let drawing = ListDrawing { ops, rows, height: inner.height as usize, scroll: first };
        proof {
            assert(drawing@ =~= wanted);
        }
        return drawing;
    }
    proof {
        assert(op::ops_view(ops@) =~= wanted.ops.take(2));
    }
    for k in 0..count
        invariant
            inner == quick_rect(area).within_border(),
            inner.wf(),
            count <= inner.height,
            len == panel.items@.len(),
            len > 0,
            first + count <= len,
            first == list::first_row(len as nat, inner.height as nat, panel.scroll as nat),
            count == list::shown_rows(len as nat, inner.height as nat, panel.scroll as nat),
            wanted == quick_view(*panel, area),
            op::ops_view(ops@) == wanted.ops.take(2 + k),
            rows@ == wanted.rows.take(k as int),
    {
        let index: usize = first + k as usize;
        let row_area = inner.row_at(k);
        rows.push((row_area, index));
        let row_style = style::row_style(
            panel.selected == index,
            panel.hover == HoverTarget::QuickRow(index),
        );
        let text = quick_item(&panel.items[index]);
        op::push_label(&mut ops, row_area, &text, row_style);
        proof {
            assert(op::ops_view(ops@) =~= wanted.ops.take(3 + k));
            assert(rows@ =~= wanted.rows.take(k + 1));
        }
    }
    proof {
        assert(wanted.ops.take(wanted.ops.len() as int) =~= wanted.ops);
        assert(wanted.rows.take(wanted.rows.len() as int) =~= wanted.rows);
    }
    ListDrawing { ops, rows, height: inner.height as usize, scroll: first }
}

/// A popup stands to the right of the mouse and below it, where there is room for it
/// there; it is as wide as its text and four columns more, within bounds, and has two
/// rows more than its text.
pub proof fn popups_stand_beside_the_mouse(
    area: Rect,
    text_width: usize,
    rows: nat,
    mouse_x: u16,
    mouse_y: u16,
)
    requires
        area.wf(),
        24 <= text_width <= 76,
        mouse_x + 1 + text_width + 4 <= area.end_x(),
        mouse_y + 1 + rows + 2 <= area.end_y(),
        area.x <= mouse_x,
        area.y <= mouse_y,
    ensures
        popup_rect(area, text_width, rows, mouse_x, mouse_y) == (Rect {
            x: (mouse_x + 1) as u16,
            y: (mouse_y + 1) as u16,
            width: (text_width + 4) as u16,
            height: (rows + 2) as u16,
        }),
{
}

/// A popup that would leave the area at the bottom stands above the mouse, and one that
/// would leave it at the right ends there.
pub proof fn popups_move_where_there_is_no_room(
    area: Rect,
    text_width: usize,
    rows: nat,
    mouse_x: u16,
    mouse_y: u16,
)
    requires
        area.wf(),
        24 <= text_width <= 76,
        text_width + 4 <= area.width,
        rows + 2 <= area.height,
        area.x <= mouse_x < area.end_x(),
        area.y <= mouse_y < area.end_y(),
        area.end_x() < u16::MAX,
        area.end_y() < u16::MAX,
    ensures
        ({
            let popup = popup_rect(area, text_width, rows, mouse_x, mouse_y);
            &&& mouse_x + 1 + text_width + 4 > area.end_x() ==> popup.x + popup.width == area.end_x()
            &&& mouse_y + 1 + rows + 2 > area.end_y() && mouse_y >= area.y + rows + 2 ==> popup.y + rows + 2
                == mouse_y
        }),
{
}

/// The quick panel stands in the middle of the area, one row below its top, two columns
/// from either side, within bounds.
pub proof fn quick_panels_stand_in_the_middle(area: Rect)
    requires
        area.wf(),
        28 <= area.width,
        8 <= area.height,
    ensures
        ({
            let panel = quick_rect(area);
            &&& panel.y == area.y + 1
            &&& panel.width == if area.width <= 86 {
                area.width - 4
            } else {
                82
            }
            &&& panel.height == if area.height <= 20 {
                area.height - 2
            } else {
                18
            }
            &&& 0 <= (area.end_x() - panel.x - panel.width) - (panel.x - area.x) <= 1
        }),
{
}

/// The popup of a symbol is shown only over an editor, while nothing is asked, and where
/// there is room; it shows the lines that tell of the symbol, cut to its width.
pub proof fn popups_show_the_lines(state: HoverState, root: FsPath, area: Rect)
    ensures
        ({
            let ops = hover_ops(state, root, area);
            let shown = state.hover is Some && !state.asking && state.editor_shown && area.width >= 8
                && area.height >= 4;
            &&& !shown ==> ops.len() == 0
            &&& shown ==> {
                let rows = hover_rows(state.hover->0, root);
                &&& ops.len() == 3
                &&& ops[0] is Clear
                &&& ops[1] is Panel
                &&& ops[2] is Lines
                &&& ops[2]->lines.len() == rows.len()
                &&& forall|i: int|
                    0 <= i < rows.len() ==> (#[trigger] ops[2]->lines[i]).spans == seq![
                        (
                            width::truncated(rows[i], ops[2]->Lines_area.width as int),
                            style::plain(),
                        ),
                    ]
            }
        }),
{
    let ops = hover_ops(state, root, area);
    if state.hover is Some && !state.asking && state.editor_shown && area.width >= 8 && area.height
        >= 4 {
        let rows = hover_rows(state.hover->0, root);
        assert forall|i: int| 0 <= i < rows.len() implies (#[trigger] ops[2]->lines[i]).spans
            == seq![
            (width::truncated(rows[i], ops[2]->Lines_area.width as int), style::plain()),
        ] by {
            assert(line::no_spans().push(
                (width::truncated(rows[i], ops[2]->Lines_area.width as int), style::plain()),
            ) =~= seq![
                (width::truncated(rows[i], ops[2]->Lines_area.width as int), style::plain()),
            ]);
        }
    }
}

/// A popup has room for 24 to 76 columns of text, and is never larger than its area.
pub proof fn popups_are_neither_small_nor_large(
    area: Rect,
    text_width: usize,
    rows: nat,
    mouse_x: u16,
    mouse_y: u16,
)
    requires
        area.wf(),
        mouse_y <= area.end_y(),
        area.end_x() < u16::MAX,
        area.end_y() < u16::MAX,
    ensures
        ({
            let popup = popup_rect(area, text_width, rows, mouse_x, mouse_y);
            &&& area.width <= 28 ==> popup.width == area.width
            &&& text_width <= 24 && area.width >= 28 ==> popup.width == 28
            &&& text_width >= 76 && area.width >= 80 ==> popup.width == 80
            &&& text_width >= 76 && area.width < 80 ==> popup.width == area.width
            &&& rows + 2 >= area.height ==> popup.height == area.height
            &&& rows + 2 < area.height ==> popup.height == rows + 2
        }),
{
}

/// A symbol is explained unless the user is asked for something, or the editor or the
/// room for it is missing.
pub proof fn symbols_are_explained_where_there_is_room(state: HoverState, root: FsPath, area: Rect)
    ensures
        state.hover is None ==> hover_ops(state, root, area).len() == 0,
        state.asking ==> hover_ops(state, root, area).len() == 0,
        !state.editor_shown ==> hover_ops(state, root, area).len() == 0,
        area.width < 8 || area.height < 4 ==> hover_ops(state, root, area).len() == 0,
        state.hover is Some && !state.asking && state.editor_shown && area.width >= 8 && area.height
            >= 4 ==> hover_ops(state, root, area).len() == 3,
{
}

/// A quick panel clears its place, shows what it lists and what was typed in its frame,
/// and says so where it lists nothing.
pub proof fn quick_panels_show_what_was_typed(panel: QuickPanel, area: Rect)
    ensures
        ({
            let view = quick_view(panel, area);
            let outer = quick_rect(area);
            &&& view.ops.len() >= 2
            &&& view.ops[0] == OpView::Clear(outer)
            &&& view.ops[1] is Panel
            &&& view.ops[1]->Panel_area == outer
            &&& view.ops[1]->Panel_title == label::quick_title_text(panel.kind) + seq![' ', ' ']
                + panel.query@ + seq![' ']
            &&& view.ops[1]->Panel_border.fg == Some(style::Color::Rgb(89, 169, 255))
            &&& panel.items@.len() == 0 ==> view.ops.len() == 3 && view.ops[2] is Label
                && view.ops[2]->Label_area == outer.within_border() && view.ops[2]->Label_text
                == label::quick_empty_text(panel.kind)
        }),
{
    reveal_strlit("  ");
    reveal_strlit(" ");
    assert("  "@ =~= seq![' ', ' ']);
    assert(" "@ =~= seq![' ']);
}

} // verus!
