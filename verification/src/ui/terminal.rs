//! The terminal panel.

use vstd::prelude::*;

use crate::screen::Terminal;
use crate::screen::TerminalStyle;
use crate::shell;
use crate::shell::ShellPanel;
use crate::spans;
use crate::ui::area;
use crate::ui::area::Constraint;
use crate::ui::area::Rect;
use crate::ui::label::HoverTarget;
use crate::ui::line;
use crate::ui::line::Overlay;
use crate::ui::op;
use crate::ui::op::DrawOp;
use crate::ui::op::LineView;
use crate::ui::op::OpView;
use crate::ui::op::StyledLine;
use crate::ui::status;
use crate::ui::status::TerminalTitle;
use crate::ui::style;
use crate::ui::style::Style;
use crate::ui::tabs;
use crate::ui::tabs::TerminalRow;

verus! {

/// What is laid over a row of the terminal: the selected columns, what was
/// found, and links.
#[derive(Debug, Clone, PartialEq, Eq)]
pub struct RowOverlay {
    pub selection: Option<(usize, usize)>,
    pub found: Vec<(usize, usize, bool)>,
    pub links: Vec<(usize, usize)>,
}

impl View for RowOverlay {
    type V = Overlay;

    open spec fn view(&self) -> Overlay {
        Overlay { selection: self.selection, found: self.found@, links: self.links@ }
    }
}

/// How a terminal is shown in its pane.
#[derive(Debug, Clone, PartialEq, Eq)]
pub struct TerminalPane {
    /// The terminal takes the keys of the panel.
    pub active: bool,
    /// There are two panes.
    pub split: bool,
    /// The panel takes the keys.
    pub focused: bool,
    /// What is laid over the rows; nothing is laid over the rows behind the
    /// last one.
    pub overlays: Vec<RowOverlay>,
}

/// What is laid over a row of a pane.
pub open spec fn overlay_of(pane: TerminalPane, row: int) -> Overlay {
    if row < pane.overlays@.len() {
        pane.overlays@[row]@
    } else {
        Overlay { selection: None, found: Seq::empty(), links: Seq::empty() }
    }
}

/// A row of a pane.
pub open spec fn pane_line(terminal: Terminal, pane: TerminalPane, row: int) -> LineView {
    LineView {
        spans: line::shown_terminal_row(
            shell::styled_row(terminal, row as u16),
            overlay_of(pane, row),
        ),
        style: style::plain(),
    }
}

/// The cell of the cursor in a pane, which it does not leave.
pub open spec fn cursor_op(terminal: Terminal, body: Rect) -> OpView {
    let x = body.x + terminal.cursor.1;
    let y = body.y + terminal.cursor.0;
    OpView::Cursor {
        x: if x < body.end_x() {
            x as u16
        } else {
            (body.end_x() - 1) as u16
        },
        y: if y < body.end_y() {
            y as u16
        } else {
            (body.end_y() - 1) as u16
        },
    }
}

/// The cursor is shown in a cell of its pane.
pub proof fn cursor_stays_in_the_pane(terminal: Terminal, body: Rect)
    requires
        body.wf(),
        body.width > 0,
        body.height > 0,
    ensures
        ({
            let cursor = cursor_op(terminal, body);
            &&& body.x <= cursor->x < body.end_x()
            &&& body.y <= cursor->y < body.end_y()
        }),
{
}

/// The steps that draw a terminal in its pane. The cursor is shown in the pane
/// that takes the keys, unless the terminal hides it or the view is scrolled
/// back.
pub open spec fn pane_ops(terminal: Terminal, pane: TerminalPane, body: Rect) -> Seq<OpView> {
    let rows = op::no_ops().push(
        (OpView::Lines {
            area: body,
            lines: Seq::new(terminal.rows as nat, |row: int| pane_line(terminal, pane, row)),
            style: style::plain().fg(style::text_color()).bg(
                if pane.active && pane.split {
                    style::split_pane_bg()
                } else {
                    style::panel_bg()
                },
            ),
        }),
    );
    if pane.focused && pane.active && !terminal.hide_cursor && terminal.offset == 0 {
        rows.push(cursor_op(terminal, body))
    } else {
        rows
    }
}

proof fn lemma_shown_plain(row: Seq<(Seq<char>, TerminalStyle)>)
    ensures
        spans::plain(line::shown_row(row)) == spans::plain(row),
    decreases row.len(),
{
    if row.len() > 0 {
        lemma_shown_plain(row.drop_last());
        assert(line::shown_row(row).drop_last() =~= line::shown_row(row.drop_last()));
    } else {
        assert(spans::plain(line::shown_row(row)) =~= spans::plain(row));
    }
}

proof fn lemma_shown_cells(terminal: Terminal, row: u16, cols: int)
    requires
        terminal.sound(),
        row < terminal.rows,
        cols >= 0,
    ensures
        spans::plain(shell::shown_cells(terminal, row, cols)).len() <= 22 * cols,
    decreases cols,
{
    if cols > 0 {
        lemma_shown_cells(terminal, row, cols - 1);
        let before = shell::shown_cells(terminal, row, cols - 1);
        let after = shell::shown_cells(terminal, row, cols);
        reveal_strlit(" ");
        if after.len() > before.len() {
            assert(after.drop_last() =~= before);
        }
    }
}

/// A row of a terminal is no longer than its cells can hold.
proof fn lemma_row_len(terminal: Terminal, row: u16)
    requires
        terminal.sound(),
        row < terminal.rows,
    ensures
        line::total_len(line::shown_row(shell::styled_row(terminal, row))) <= 22 * 65536,
{
    let styled = shell::styled_row(terminal, row);
    line::lemma_text_len(line::shown_row(styled));
    lemma_shown_plain(styled);
    match shell::last_used_col(terminal, row, terminal.cols) {
        None => {},
        Some(last) => {
            let end = if last < terminal.cols {
                last + 1
            } else {
                terminal.cols as int
            };
            lemma_shown_cells(terminal, row, end);
            spans::runs_keep_the_text(shell::shown_cells(terminal, row, end));
        },
    }
}

/// Draws a terminal in its pane, after it was given the size of the pane. The
/// size is returned where it is a new one. Nothing is done in a pane without a
/// cell.
pub fn draw_terminal_pane(shell: &mut ShellPanel, pane: &TerminalPane, body: Rect) -> (drawn: (
    Vec<DrawOp>,
    Option<(u16, u16)>,
))
    requires
        old(shell).wf(),
        body.wf(),
    ensures
        final(shell).wf(),
        if body.width == 0 || body.height == 0 {
            &&& *final(shell) == *old(shell)
            &&& op::ops_view(drawn.0@) == op::no_ops()
            &&& drawn.1 is None
        } else {
            &&& old(shell).resized_to(body.height, body.width, *final(shell), drawn.1)
            &&& op::ops_view(drawn.0@) == pane_ops(final(shell)@.terminal, *pane, body)
        },
{
    if body.width == 0 || body.height == 0 {
        return (op::none(), None);
    }
    let resized = shell.resize(body.height, body.width);
    let ghost terminal = shell@.terminal;
    proof {
        shell.lemma_wf();
    }
    let rows = shell.styled_rows();
    let mut lines: Vec<StyledLine> = Vec::new();
    for i in 0..rows.len()
        invariant
            terminal.sound(),
            rows@.len() == terminal.rows,
            forall|row: int|
                0 <= row < rows@.len() ==> spans::terminal_spans_view((#[trigger] rows@[row])@)
                    == shell::styled_row(terminal, row as u16),
            lines@.len() == i,
            forall|j: int|
                0 <= j < i ==> (#[trigger] lines@[j])@ == pane_line(terminal, *pane, j),
    {
        proof {
            lemma_row_len(terminal, i as u16);
        }
        let spans = if i < pane.overlays.len() {
            let overlay = &pane.overlays[i];
            line::terminal_row_spans(&rows[i], overlay.selection, &overlay.found, &overlay.links)
        } else {
            let found: Vec<(usize, usize, bool)> = Vec::new();
            let links: Vec<(usize, usize)> = Vec::new();
            line::terminal_row_spans(&rows[i], None, &found, &links)
        };
        lines.push(StyledLine { spans, style: style::plain() });
    }
    let background = if pane.active && pane.split {
        style::split_pane_bg()
    } else {
        style::panel_bg()
    };
    proof {
        assert(op::lines_view(lines@) =~= Seq::new(
            terminal.rows as nat,
            |row: int| pane_line(terminal, *pane, row),
        ));
    }
    let mut ops = op::none();
    op::push(
        &mut ops,
        DrawOp::Lines {
            area: body,
            lines,
            style: style::plain().fg(style::text_color()).bg(background),
        },
    );
    if pane.focused && pane.active && !shell.hide_cursor() && shell.scrollback() == 0 {
        let (row, col) = shell.cursor();
        let x: u16 = if col < body.width {
            body.x + col
        } else {
            body.right() - 1
        };
        let y: u16 = if row < body.height {
            body.y + row
        } else {
            body.bottom() - 1
        };
        op::push(&mut ops, DrawOp::Cursor { x, y });
    }
    (ops, resized)
}

/// The terminal panel: its title, its row of terminals, and the terminals that
/// are in view.
#[derive(Debug, Clone, PartialEq, Eq)]
pub struct TerminalPanel {
    pub maximized: bool,
    pub focused: bool,
    /// The height of the panel is being changed.
    pub resizing: bool,
    pub title: TerminalTitle,
    pub row: TerminalRow,
    /// The terminals in view, where there is more than one.
    pub visible: Vec<usize>,
}

/// Where the parts of the terminal panel stand: the row of terminals, where
/// there is room for it, the panes, and the two panes with the column between
/// them, where there are two.
#[derive(Debug, Clone, Copy, PartialEq, Eq)]
pub struct TerminalAreas {
    pub tabs: Option<Rect>,
    pub body: Rect,
    pub halves: Option<(Rect, Rect, Rect)>,
}

impl TerminalAreas {
    pub open spec fn wf(self) -> bool {
        &&& self.tabs matches Some(tabs) ==> tabs.wf()
        &&& self.body.wf()
        &&& self.halves matches Some(halves) ==> halves.0.wf() && halves.1.wf()
            && halves.2.wf()
    }
}

/// Whether two panes are shown side by side, and the areas of the two with the
/// column between them.
pub open spec fn are_halves(body: Rect, two: bool, halves: Option<(Rect, Rect, Rect)>) -> bool {
    match halves {
        Some((left, middle, right)) => two && area::may_split(
            body,
            false,
            seq![Constraint::Percentage(50), Constraint::Length(1), Constraint::Percentage(50)],
            seq![left, middle, right],
        ),
        None => !two,
    }
}

/// Whether the parts of the terminal panel stand where they belong.
pub open spec fn is_terminal_layout(panel: Rect, visible: nat, areas: TerminalAreas) -> bool {
    let inner = panel.within_border();
    &&& match areas.tabs {
        Some(tabs) => inner.height > 1 && area::may_split(
            inner,
            true,
            seq![Constraint::Length(1), Constraint::Min(1)],
            seq![tabs, areas.body],
        ),
        None => inner.height <= 1 && areas.body == inner,
    }
    &&& are_halves(areas.body, visible > 1 && areas.body.width >= 40, areas.halves)
}

/// Divides the area of the terminal panel.
pub fn terminal_layout(panel: Rect, visible: usize) -> (areas: TerminalAreas)
    requires
        panel.wf(),
    ensures
        is_terminal_layout(panel, visible as nat, areas),
        areas.wf(),
        panel.holds(areas.body),
{
    let (tabs, body) = area::terminal_areas(panel.inner());
    let halves = if visible > 1 && body.width >= 40 {
        Some(area::halves(body))
    } else {
        None
    };
    TerminalAreas { tabs, body, halves }
}

/// The style of the border of the terminal panel.
#[verifier::allow_in_spec]
pub fn terminal_border(resizing: bool, hovered: bool, focused: bool) -> Style
    returns
        if hovered || resizing {
            style::plain().fg(style::accent()).bg(style::hover_bg()).bold()
        } else {
            style::border_style(focused)
        },
{
    if hovered || resizing {
        style::plain().fg(style::accent()).bg(style::hover_bg()).bold()
    } else {
        style::border_style(focused)
    }
}

/// The steps that draw the terminal panel but for the terminals, where its
/// parts stand, and which terminal is drawn where.
#[derive(Debug, Clone, PartialEq, Eq)]
pub struct TerminalDrawing {
    pub ops: Vec<DrawOp>,
    /// The row with which the height of the panel is changed.
    pub resize: Option<Rect>,
    pub tabs: Vec<(Rect, usize)>,
    pub closes: Vec<(Rect, usize)>,
    pub new_terminal: Option<Rect>,
    pub panes: Vec<(Rect, usize)>,
}

#[verifier::ext_equal]
pub struct TerminalDrawingView {
    pub ops: Seq<OpView>,
    pub resize: Option<Rect>,
    pub tabs: Seq<(Rect, usize)>,
    pub closes: Seq<(Rect, usize)>,
    pub new_terminal: Option<Rect>,
    pub panes: Seq<(Rect, usize)>,
}

impl View for TerminalDrawing {
    type V = TerminalDrawingView;

    open spec fn view(&self) -> TerminalDrawingView {
        TerminalDrawingView {
            ops: op::ops_view(self.ops@),
            resize: self.resize,
            tabs: self.tabs@,
            closes: self.closes@,
            new_terminal: self.new_terminal,
            panes: self.panes@,
        }
    }
}

/// The terminals that are drawn, and where.
pub open spec fn terminal_places(panel: TerminalPanel, areas: TerminalAreas) -> Seq<(Rect, usize)> {
    match areas.halves {
        Some((left, _, right)) => Seq::empty().push((left, panel.visible@[0])).push(
            (right, panel.visible@[1]),
        ),
        None => Seq::empty().push((areas.body, panel.row.active)),
    }
}

/// What is drawn of the terminal panel but for the terminals. In a panel
/// without a row for them nothing but the border is drawn.
pub open spec fn terminal_view(
    panel: TerminalPanel,
    area: Rect,
    areas: TerminalAreas,
) -> TerminalDrawingView {
    let frame = op::no_ops().push(
        (OpView::Panel {
            area,
            title: status::terminal_title_line(panel.title),
            border: terminal_border(
                panel.resizing,
                panel.row.hover == HoverTarget::TerminalResize,
                panel.focused,
            ),
        }),
    );
    let resize = if !panel.maximized && area.height > 0 {
        Some(area.row(0))
    } else {
        None
    };
    if area.within_border().height == 0 {
        TerminalDrawingView {
            ops: frame,
            resize,
            tabs: Seq::empty(),
            closes: Seq::empty(),
            new_terminal: None,
            panes: Seq::empty(),
        }
    } else {
        let widths = tabs::terminal_widths(panel.row.terminals@);
        let hints = tabs::hint_widths(panel.row.terminals@);
        let separator = match areas.halves {
            Some((_, middle, _)) => op::no_ops().push(op::separator(middle)),
            None => op::no_ops(),
        };
        match areas.tabs {
            Some(row) => {
                let rects = tabs::tab_rects(row, tabs::terminal_tab_sizes(), widths);
                TerminalDrawingView {
                    ops: frame + tabs::terminal_row_ops(panel.row, row, widths, hints)
                        + separator,
                    resize,
                    tabs: tabs::numbered(rects),
                    closes: tabs::close_rects(rects),
                    new_terminal: tabs::new_terminal_rect(row, widths),
                    panes: terminal_places(panel, areas),
                }
            },
            None => TerminalDrawingView {
                ops: frame + separator,
                resize,
                tabs: Seq::empty(),
                closes: Seq::empty(),
                new_terminal: None,
                panes: terminal_places(panel, areas),
            },
        }
    }
}

/// Draws the terminal panel but for the terminals, whose parts stand in the
/// given areas.
pub fn draw_terminal_in(panel: &TerminalPanel, area: Rect, areas: TerminalAreas) -> (drawing:
    TerminalDrawing)
    requires
        area.wf(),
        areas.wf(),
        areas.halves is Some ==> panel.visible@.len() > 1,
    ensures
        drawing@ == terminal_view(*panel, area, areas),
{
    let mut ops = op::none();
    let title = status::terminal_panel_title(&panel.title);
    let border = terminal_border(
        panel.resizing,
        panel.row.hover == HoverTarget::TerminalResize,
        panel.focused,
    );
    op::push(&mut ops, DrawOp::Panel { area, title, border });
    let ghost frame = op::ops_view(ops@);
    let resize = if !panel.maximized && area.height > 0 {
        Some(area.row_at(0))
    } else {
        None
    };
    let mut tab_rects: Vec<(Rect, usize)> = Vec::new();
    let mut closes: Vec<(Rect, usize)> = Vec::new();
    let mut new_terminal: Option<Rect> = None;
    let mut panes: Vec<(Rect, usize)> = Vec::new();
    if area.inner().height == 0 {
        let drawing = TerminalDrawing { ops, resize, tabs: tab_rects, closes, new_terminal, panes };
        proof {
            assert(drawing@ =~= terminal_view(*panel, area, areas));
        }
        return drawing;
    }
    if let Some(row) = areas.tabs {
        let mut drawn = tabs::draw_terminal_tabs(&panel.row, row);
        op::append(&mut ops, &mut drawn.ops);
        tab_rects = drawn.tabs;
        closes = drawn.closes;
        new_terminal = drawn.new_terminal;
    }
    let ghost before = op::ops_view(ops@);
    match areas.halves {
        Some((left, middle, right)) => {
            op::push(&mut ops, op::separator_op(middle));
            panes.push((left, panel.visible[0]));
            panes.push((right, panel.visible[1]));
            proof {
                assert(op::ops_view(ops@) =~= before + op::no_ops().push(op::separator(middle)));
            }
        },
        None => {
            panes.push((areas.body, panel.row.active));
            proof {
                assert(before + op::no_ops() =~= before);
            }
        },
    }
    let drawing = TerminalDrawing { ops, resize, tabs: tab_rects, closes, new_terminal, panes };
    proof {
        assert(drawing@ =~= terminal_view(*panel, area, areas));
    }
    drawing
}

/// Draws the terminal panel but for the terminals.
pub fn draw_terminal(panel: &TerminalPanel, area: Rect) -> (drawn: (TerminalAreas, TerminalDrawing))
    requires
        area.wf(),
    ensures
        is_terminal_layout(area, panel.visible@.len(), drawn.0),
        drawn.1@ == terminal_view(*panel, area, drawn.0),
{
    let areas = terminal_layout(area, panel.visible.len());
    (areas, draw_terminal_in(panel, area, areas))
}

/// The border of the terminal lights up while it is dragged and under the mouse, and
/// else tells whether the terminal takes the keys.
pub proof fn borders_light_up_to_be_dragged(resizing: bool, hovered: bool, focused: bool)
    ensures
        ({
            let border = terminal_border(resizing, hovered, focused);
            &&& resizing || hovered ==> border.bold && border.fg == Some(
                style::Color::Rgb(89, 169, 255),
            ) && border.bg == Some(style::Color::Rgb(42, 54, 71))
            &&& !resizing && !hovered ==> !border.bold && border.bg is None && border.fg == Some(
                if focused {
                    style::Color::Rgb(89, 169, 255)
                } else {
                    style::Color::Rgb(75, 89, 110)
                },
            )
        }),
{
}

/// The terminal is drawn in a frame with its title; its upper edge can be dragged unless
/// the terminal is maximized; and without room within the frame there is nothing else.
pub proof fn terminals_are_drawn_in_a_frame(
    panel: TerminalPanel,
    area: Rect,
    areas: TerminalAreas,
)
    ensures
        ({
            let view = terminal_view(panel, area, areas);
            &&& view.ops.len() >= 1
            &&& view.ops[0] == (OpView::Panel {
                area,
                title: status::terminal_title_line(panel.title),
                border: terminal_border(
                    panel.resizing,
                    panel.row.hover is TerminalResize,
                    panel.focused,
                ),
            })
            &&& view.resize is Some <==> !panel.maximized && area.height > 0
            &&& view.resize is Some ==> view.resize->0.y == area.y && view.resize->0.x == area.x
                && view.resize->0.width == area.width && view.resize->0.height == 1
            &&& area.height <= 2 ==> view.ops.len() == 1 && view.panes.len() == 0
                && view.tabs.len() == 0 && view.closes.len() == 0 && view.new_terminal is None
            &&& area.height > 2 && areas.tabs is None ==> view.tabs.len() == 0
                && view.new_terminal is None
        }),
{
}

} // verus!
