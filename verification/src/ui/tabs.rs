//! The rows of tabs above the editor and above the terminal.

use vstd::prelude::*;

use crate::ui::area::Rect;
use crate::ui::label::HoverTarget;
use crate::ui::op;
use crate::ui::op::DrawOp;
use crate::ui::op::OpView;
use crate::ui::status;
use crate::ui::style;
use crate::ui::style::Color;
use crate::ui::style::Style;
use crate::ui::width;

verus! {

/// The smaller and the larger width that a tab can have.
#[derive(Debug, Clone, Copy, PartialEq, Eq, Structural)]
pub struct TabSizes {
    pub low: u16,
    pub high: u16,
}

/// A width held between two bounds.
pub open spec fn held(width: usize, sizes: TabSizes) -> nat {
    if width < sizes.low {
        sizes.low as nat
    } else if width > sizes.high {
        sizes.high as nat
    } else {
        width as nat
    }
}

/// The column where tab `n` starts: the tabs before it stand side by side, and
/// none of them leaves the row.
pub open spec fn tab_start(area: Rect, sizes: TabSizes, widths: Seq<usize>, n: int) -> int
    decreases n,
{
    if n <= 0 {
        area.x as int
    } else {
        let end = tab_start(area, sizes, widths, n - 1) + held(widths[n - 1], sizes);
        if end < area.end_x() {
            end
        } else {
            area.end_x()
        }
    }
}

/// The area of tab `n`.
pub open spec fn tab_rect(area: Rect, sizes: TabSizes, widths: Seq<usize>, n: int) -> Rect {
    let start = tab_start(area, sizes, widths, n);
    Rect::cut(
        start as u16,
        area.y,
        (tab_start(area, sizes, widths, n + 1) - start) as u16,
        1,
    )
}

/// How many of the first `n` tabs there is room for.
pub open spec fn shown_tabs(area: Rect, sizes: TabSizes, widths: Seq<usize>, n: int) -> nat
    decreases n,
{
    if n <= 0 {
        0
    } else if tab_start(area, sizes, widths, n - 1) < area.end_x() {
        n as nat
    } else {
        shown_tabs(area, sizes, widths, n - 1)
    }
}

/// The areas of the tabs that there is room for.
pub open spec fn tab_rects(area: Rect, sizes: TabSizes, widths: Seq<usize>) -> Seq<Rect> {
    Seq::new(
        shown_tabs(area, sizes, widths, widths.len() as int),
        |i: int| tab_rect(area, sizes, widths, i),
    )
}

proof fn lemma_tab_start(area: Rect, sizes: TabSizes, widths: Seq<usize>, i: int, n: int)
    requires
        0 <= i <= n,
    ensures
        area.x <= tab_start(area, sizes, widths, i) <= tab_start(area, sizes, widths, n)
            <= area.end_x(),
    decreases n,
{
    if i < n {
        lemma_tab_start(area, sizes, widths, i, n - 1);
    } else if n > 0 {
        lemma_tab_start(area, sizes, widths, n - 1, n - 1);
    }
}

proof fn lemma_full_row(area: Rect, sizes: TabSizes, widths: Seq<usize>, i: int, n: int)
    requires
        0 <= i <= n,
        tab_start(area, sizes, widths, i) >= area.end_x(),
    ensures
        shown_tabs(area, sizes, widths, n) == shown_tabs(area, sizes, widths, i),
        tab_start(area, sizes, widths, n) >= area.end_x(),
    decreases n,
{
    if i < n {
        lemma_full_row(area, sizes, widths, i, n - 1);
    }
}

proof fn lemma_shown_tabs(area: Rect, sizes: TabSizes, widths: Seq<usize>, i: int, n: int)
    requires
        0 <= i < shown_tabs(area, sizes, widths, n),
    ensures
        n >= shown_tabs(area, sizes, widths, n),
        tab_start(area, sizes, widths, i) < area.end_x(),
    decreases n,
{
    if tab_start(area, sizes, widths, n - 1) < area.end_x() {
        lemma_tab_start(area, sizes, widths, i, n - 1);
    } else {
        lemma_shown_tabs(area, sizes, widths, i, n - 1);
    }
}

/// The tabs stand side by side from the left end of their row, none of them
/// empty, and none of them leaves the row.
pub proof fn tabs_stand_side_by_side(area: Rect, sizes: TabSizes, widths: Seq<usize>)
    requires
        area.wf(),
        0 < sizes.low <= sizes.high,
    ensures
        tab_rects(area, sizes, widths).len() <= widths.len(),
        forall|i: int|
            #![trigger tab_rects(area, sizes, widths)[i]]
            0 <= i < tab_rects(area, sizes, widths).len() ==> {
                let tab = tab_rects(area, sizes, widths)[i];
                &&& tab.width > 0
                &&& area.x <= tab.x
                &&& tab.end_x() <= area.end_x()
                &&& tab.y == area.y
                &&& i == 0 ==> tab.x == area.x
                &&& i > 0 ==> tab.x == tab_rects(area, sizes, widths)[i - 1].end_x()
            },
{
    let rects = tab_rects(area, sizes, widths);
    let count = widths.len() as int;
    if rects.len() > 0 {
        lemma_shown_tabs(area, sizes, widths, 0, count);
    }
    assert forall|i: int| #![trigger rects[i]] 0 <= i < rects.len() implies {
        let tab = rects[i];
        &&& tab.width > 0
        &&& area.x <= tab.x
        &&& tab.end_x() <= area.end_x()
        &&& tab.y == area.y
        &&& i == 0 ==> tab.x == area.x
        &&& i > 0 ==> tab.x == rects[i - 1].end_x()
    } by {
        lemma_shown_tabs(area, sizes, widths, i, count);
        lemma_tab_start(area, sizes, widths, i, i + 1);
        if i > 0 {
            lemma_tab_start(area, sizes, widths, i - 1, i);
            assert(rects[i - 1] == tab_rect(area, sizes, widths, i - 1));
        }
    }
}

/// The areas of tabs whose labels have the given widths, and the column behind
/// the last of them.
pub fn tab_areas(area: Rect, sizes: TabSizes, widths: &Vec<usize>) -> (out: (Vec<Rect>, u16))
    requires
        area.wf(),
        sizes.low <= sizes.high,
    ensures
        out.0@ == tab_rects(area, sizes, widths@),
        out.1 == tab_start(area, sizes, widths@, widths@.len() as int),
{
    let end = area.right();
    let mut x: u16 = area.x;
    let mut rects: Vec<Rect> = Vec::new();
    let mut i: usize = 0;
    while i < widths.len() && x < end
        invariant
            area.wf(),
            end == area.end_x(),
            sizes.low <= sizes.high,
            i <= widths@.len(),
            area.x <= x <= end,
            x == tab_start(area, sizes, widths@, i as int),
            shown_tabs(area, sizes, widths@, i as int) == i,
            rects@.len() == i,
            forall|j: int|
                0 <= j < i ==> #[trigger] rects@[j] == tab_rect(area, sizes, widths@, j),
        decreases widths@.len() - i,
    {
        let wanted: usize = widths[i];
        let width: u16 = if wanted < sizes.low as usize {
            sizes.low
        } else if wanted > sizes.high as usize {
            sizes.high
        } else {
            wanted as u16
        };
        let width: u16 = if width < end - x {
            width
        } else {
            end - x
        };
        rects.push(Rect::new(x, area.y, width, 1));
        x = x + width;
        i = i + 1;
    }
    proof {
        let n = widths@.len() as int;
        if i < n {
            lemma_full_row(area, sizes, widths@, i as int, n);
            lemma_tab_start(area, sizes, widths@, i as int, n);
        }
        assert(rects@ =~= tab_rects(area, sizes, widths@));
    }
    (rects, x)
}

/// The areas with their numbers.
pub open spec fn numbered(rects: Seq<Rect>) -> Seq<(Rect, usize)> {
    Seq::new(rects.len(), |i: int| (rects[i], i as usize))
}

/// The area of the button that closes a tab.
pub open spec fn close_rect(tab: Rect) -> Rect {
    Rect::cut(
        if tab.end_x() >= 3 {
            (tab.end_x() - 3) as u16
        } else {
            0
        },
        tab.y,
        3,
        1,
    )
}

/// The areas of the buttons that close tabs: at the right end of each tab that
/// is at least three columns wide.
pub open spec fn close_rects(rects: Seq<Rect>) -> Seq<(Rect, usize)>
    decreases rects.len(),
{
    if rects.len() == 0 {
        Seq::empty()
    } else {
        let before = close_rects(rects.drop_last());
        if rects.last().width >= 3 {
            before.push((close_rect(rects.last()), (rects.len() - 1) as usize))
        } else {
            before
        }
    }
}

/// The button that closes a tab lies in the tab.
pub proof fn close_buttons_lie_in_their_tabs(tab: Rect)
    requires
        tab.wf(),
        tab.width >= 3,
        tab.height == 1,
    ensures
        tab.holds(close_rect(tab)),
{
}

/// The areas of tabs with their numbers, and of the buttons that close them.
pub fn tab_regions(rects: &Vec<Rect>) -> (regions: (Vec<(Rect, usize)>, Vec<(Rect, usize)>))
    requires
        forall|i: int| 0 <= i < rects@.len() ==> (#[trigger] rects@[i]).wf(),
    ensures
        regions.0@ == numbered(rects@),
        regions.1@ == close_rects(rects@),
{
    let mut tabs: Vec<(Rect, usize)> = Vec::new();
    let mut closes: Vec<(Rect, usize)> = Vec::new();
    for i in 0..rects.len()
        invariant
            forall|j: int| 0 <= j < rects@.len() ==> (#[trigger] rects@[j]).wf(),
            tabs@ == numbered(rects@.take(i as int)),
            closes@ == close_rects(rects@.take(i as int)),
    {
        let rect = rects[i];
        tabs.push((rect, i));
        proof {
            assert(rects@.take(i + 1).drop_last() =~= rects@.take(i as int));
            assert(tabs@ =~= numbered(rects@.take(i + 1)));
        }
        if rect.width >= 3 {
            closes.push((Rect::new(rect.right().saturating_sub(3), rect.y, 3, 1), i));
        }
    }
    proof {
        assert(rects@.take(rects@.len() as int) =~= rects@);
    }
    (tabs, closes)
}

/// Whether the file of a tab was changed by someone else.
#[derive(Debug, Clone, Copy, PartialEq, Eq, Structural)]
pub enum ExternalFileState {
    Clean,
    Modified,
    Deleted,
}

/// What the row of tabs shows of a tab.
#[derive(Debug, Clone, PartialEq, Eq)]
pub struct TabLabel {
    pub title: String,
    pub dirty: bool,
    pub read_only: bool,
    pub external: ExternalFileState,
}

/// The tabs of the editor.
#[derive(Debug, Clone, PartialEq, Eq)]
pub struct TabRow {
    pub tabs: Vec<TabLabel>,
    pub active: Option<usize>,
    /// The tab in the other pane, where the editor is split.
    pub split: Option<usize>,
    pub hover: HoverTarget,
}

/// The steps that draw tabs, and where they stand.
#[derive(Debug, Clone, PartialEq, Eq)]
pub struct TabsDrawing {
    pub ops: Vec<DrawOp>,
    pub tabs: Vec<(Rect, usize)>,
    pub closes: Vec<(Rect, usize)>,
}

pub open spec fn external_mark(state: ExternalFileState) -> Seq<char> {
    match state {
        ExternalFileState::Clean => status::nothing(),
        ExternalFileState::Modified => "!"@,
        ExternalFileState::Deleted => "?"@,
    }
}

/// The label of a tab.
pub open spec fn tab_label(tab: TabLabel) -> Seq<char> {
    " "@ + tab.title@ + (if tab.dirty {
        "*"@
    } else {
        status::nothing()
    }) + (if tab.read_only {
        " ro"@
    } else {
        status::nothing()
    }) + external_mark(tab.external) + " x "@
}

pub fn tab_label_text(tab: &TabLabel) -> (out: String)
    ensures
        out@ == tab_label(*tab),
{
    let mut out = " ".to_owned();
    out.append(&tab.title);
    status::push_flag(&mut out, tab.dirty, "*");
    status::push_flag(&mut out, tab.read_only, " ro");
    proof {
        status::lemma_nothing(out@);
    }
    match tab.external {
        ExternalFileState::Clean => {},
        ExternalFileState::Modified => out.append("!"),
        ExternalFileState::Deleted => out.append("?"),
    }
    out.append(" x ");
    out
}

/// The style of a tab that is the active one, stands in the other pane, or is
/// under the mouse.
#[verifier::allow_in_spec]
pub fn tab_style(active: bool, split_peer: bool, hovered: bool, external: ExternalFileState) -> Style
    returns
        if active {
            style::plain().fg(Color::White).bg(style::active_bg()).bold()
        } else if split_peer {
            style::plain().fg(Color::White).bg(style::split_tab_bg())
        } else if hovered {
            style::plain().fg(Color::White).bg(style::hover_bg())
        } else {
            style::plain().fg(
                match external {
                    ExternalFileState::Deleted => Color::LightRed,
                    ExternalFileState::Modified => Color::Yellow,
                    ExternalFileState::Clean => style::text_color(),
                },
            ).bg(style::tab_bg())
        },
{
    if active {
        style::plain().fg(Color::White).bg(style::active_bg()).bold()
    } else if split_peer {
        style::plain().fg(Color::White).bg(style::split_tab_bg())
    } else if hovered {
        style::plain().fg(Color::White).bg(style::hover_bg())
    } else {
        style::plain().fg(
            match external {
                ExternalFileState::Deleted => Color::LightRed,
                ExternalFileState::Modified => Color::Yellow,
                ExternalFileState::Clean => style::text_color(),
            },
        ).bg(style::tab_bg())
    }
}

/// The style of tab `i` of the editor.
pub open spec fn editor_tab_style(row: TabRow, i: int) -> Style {
    let active = row.active matches Some(index) && index == i;
    tab_style(
        active,
        !active && (row.split matches Some(index) && index == i),
        row.hover == HoverTarget::Tab(i as usize) || row.hover == HoverTarget::TabClose(i as usize),
        row.tabs@[i].external,
    )
}

/// The widths of the labels of tabs.
pub open spec fn tab_widths(tabs: Seq<TabLabel>) -> Seq<usize> {
    Seq::new(tabs.len(), |i: int| width::display_width(tab_label(tabs[i])))
}

/// The sizes of the tabs of the editor.
pub open spec fn editor_tab_sizes() -> TabSizes {
    TabSizes { low: 8, high: 24 }
}

/// The empty row that tabs are drawn on.
pub open spec fn empty_row(area: Rect) -> OpView {
    OpView::Label { area, text: ""@, style: style::tab_bar_style() }
}

/// The steps that draw the tabs of the editor, whose labels have the given
/// widths.
pub open spec fn tab_ops(row: TabRow, area: Rect, widths: Seq<usize>) -> Seq<OpView> {
    let rects = tab_rects(area, editor_tab_sizes(), widths);
    op::no_ops().push(empty_row(area)) + Seq::new(
        rects.len(),
        |i: int|
            OpView::Label {
                area: rects[i],
                text: tab_label(row.tabs@[i]),
                style: editor_tab_style(row, i),
            },
    )
}

/// Draws the tabs of the editor, whose labels have the given widths.
pub fn draw_tabs_of_widths(row: &TabRow, area: Rect, widths: &Vec<usize>) -> (drawing: TabsDrawing)
    requires
        area.wf(),
        widths@.len() == row.tabs@.len(),
    ensures
        op::ops_view(drawing.ops@) == tab_ops(*row, area, widths@),
        drawing.tabs@ == numbered(tab_rects(area, editor_tab_sizes(), widths@)),
        drawing.closes@ == close_rects(tab_rects(area, editor_tab_sizes(), widths@)),
{
    let mut ops = op::none();
    op::push_label(&mut ops, area, "", style::tab_bar_style());
    let (rects, _) = tab_areas(area, TabSizes { low: 8, high: 24 }, widths);
    let ghost wanted = tab_ops(*row, area, widths@);
    proof {
        tabs_stand_side_by_side(area, editor_tab_sizes(), widths@);
        assert(op::ops_view(ops@) =~= wanted.take(1));
    }
    for i in 0..rects.len()
        invariant
            rects@ == tab_rects(area, editor_tab_sizes(), widths@),
            rects@.len() <= row.tabs@.len(),
            wanted == tab_ops(*row, area, widths@),
            op::ops_view(ops@) == wanted.take(1 + i),
    {
        let tab = &row.tabs[i];
        let active = match row.active {
            Some(index) => index == i,
            None => false,
        };
        let split_peer = match row.split {
            Some(index) => index == i && !active,
            None => false,
        };
        let hovered = row.hover == HoverTarget::Tab(i) || row.hover == HoverTarget::TabClose(i);
        let label = tab_label_text(tab);
        op::push_label(
            &mut ops,
            rects[i],
            &label,
            tab_style(active, split_peer, hovered, tab.external),
        );
        proof {
            assert(op::ops_view(ops@) =~= wanted.take(2 + i));
        }
    }
    proof {
        assert(wanted.take(wanted.len() as int) =~= wanted);
    }
    let (tabs, closes) = tab_regions(&rects);
    TabsDrawing { ops, tabs, closes }
}

/// Draws the tabs of the editor.
pub fn draw_tabs(row: &TabRow, area: Rect) -> (drawing: TabsDrawing)
    requires
        area.wf(),
    ensures
        op::ops_view(drawing.ops@) == tab_ops(*row, area, tab_widths(row.tabs@)),
        drawing.tabs@ == numbered(
            tab_rects(area, editor_tab_sizes(), tab_widths(row.tabs@)),
        ),
        drawing.closes@ == close_rects(
            tab_rects(area, editor_tab_sizes(), tab_widths(row.tabs@)),
        ),
{
    let mut widths: Vec<usize> = Vec::new();
    for i in 0..row.tabs.len()
        invariant
            widths@ == tab_widths(row.tabs@).take(i as int),
    {
        let label = tab_label_text(&row.tabs[i]);
        widths.push(width::text_width(&label));
        proof {
            assert(widths@ =~= tab_widths(row.tabs@).take(i + 1));
        }
    }
    proof {
        assert(widths@ =~= tab_widths(row.tabs@));
    }
    draw_tabs_of_widths(row, area, &widths)
}

/// What the row of terminals shows of a terminal.
#[derive(Debug, Clone, PartialEq, Eq)]
pub struct TerminalLabel {
    pub title: String,
    pub exited: bool,
    /// How its program ended.
    pub exit_label: Option<String>,
}

/// The terminals.
#[derive(Debug, Clone, PartialEq, Eq)]
pub struct TerminalRow {
    pub terminals: Vec<TerminalLabel>,
    pub active: usize,
    pub hover: HoverTarget,
}

/// The steps that draw the row of terminals, and where its parts stand.
#[derive(Debug, Clone, PartialEq, Eq)]
pub struct TerminalTabsDrawing {
    pub ops: Vec<DrawOp>,
    pub tabs: Vec<(Rect, usize)>,
    pub closes: Vec<(Rect, usize)>,
    /// The button that opens a terminal.
    pub new_terminal: Option<Rect>,
}

/// The label of a terminal.
pub open spec fn terminal_label(terminal: TerminalLabel) -> Seq<char> {
    " "@ + terminal.title@ + (if terminal.exited {
        "!"@
    } else {
        status::nothing()
    }) + " x "@
}

pub fn terminal_label_text(terminal: &TerminalLabel) -> (out: String)
    ensures
        out@ == terminal_label(*terminal),
{
    let mut out = " ".to_owned();
    out.append(&terminal.title);
    status::push_flag(&mut out, terminal.exited, "!");
    out.append(" x ");
    out
}

/// The style of the tab of a terminal.
#[verifier::allow_in_spec]
pub fn terminal_tab_style(active: bool, hovered: bool, exited: bool) -> Style
    returns
        if exited {
            tab_style(active, false, hovered, ExternalFileState::Clean).fg(style::exited_fg())
        } else {
            tab_style(active, false, hovered, ExternalFileState::Clean)
        },
{
    if exited {
        tab_style(active, false, hovered, ExternalFileState::Clean).fg(style::exited_fg())
    } else {
        tab_style(active, false, hovered, ExternalFileState::Clean)
    }
}

/// The style of the tab of terminal `i`.
pub open spec fn terminal_style_at(row: TerminalRow, i: int) -> Style {
    terminal_tab_style(
        row.active == i,
        row.hover == HoverTarget::TerminalTab(i as usize) || row.hover
            == HoverTarget::TerminalTabClose(i as usize),
        row.terminals@[i].exited,
    )
}

/// The area in a tab for the text that says how a program ended: left of the
/// button that closes the tab, and no wider than the tab but four columns.
pub open spec fn hint_rect(tab: Rect, hint_width: usize) -> Rect {
    let room = tab.width - 4;
    let width = if hint_width < room {
        hint_width as int
    } else {
        room
    };
    let start = tab.end_x() - width - 3;
    Rect::cut(
        if start < 0 {
            0
        } else {
            start as u16
        },
        tab.y,
        width as u16,
        1,
    )
}

/// The steps that draw the tab of terminal `i`: its label, and on it, where it
/// is active and wide enough, how its program ended.
pub open spec fn terminal_tab_op(
    row: TerminalRow,
    tab: Rect,
    hint_widths: Seq<usize>,
    i: int,
) -> Seq<OpView> {
    let label = op::no_ops().push(
        (OpView::Label {
            area: tab,
            text: terminal_label(row.terminals@[i]),
            style: terminal_style_at(row, i),
        }),
    );
    match row.terminals@[i].exit_label {
        Some(hint) if row.active == i && tab.width > 12 && hint_widths[i] > 0 => label.push(
            (OpView::Label {
                area: hint_rect(tab, hint_widths[i]),
                text: hint@,
                style: terminal_style_at(row, i).bold(),
            }),
        ),
        _ => label,
    }
}

/// The steps that draw the tabs of the first `n` terminals.
pub open spec fn terminal_tab_ops(
    row: TerminalRow,
    rects: Seq<Rect>,
    hint_widths: Seq<usize>,
    n: int,
) -> Seq<OpView>
    decreases n,
{
    if n <= 0 {
        op::no_ops()
    } else {
        terminal_tab_ops(row, rects, hint_widths, n - 1) + terminal_tab_op(
            row,
            rects[n - 1],
            hint_widths,
            n - 1,
        )
    }
}

/// The sizes of the tabs of terminals.
pub open spec fn terminal_tab_sizes() -> TabSizes {
    TabSizes { low: 9, high: 20 }
}

/// The button that opens a terminal: behind the last tab, where there is room.
pub open spec fn new_terminal_rect(area: Rect, widths: Seq<usize>) -> Option<Rect> {
    let start = tab_start(area, terminal_tab_sizes(), widths, widths.len() as int);
    let room = area.end_x() - start;
    if room <= 0 {
        None
    } else {
        Some(
            Rect::cut(
                start as u16,
                area.y,
                if room < 5 {
                    room as u16
                } else {
                    5
                },
                1,
            ),
        )
    }
}

/// The style of the button that opens a terminal.
#[verifier::allow_in_spec]
pub fn new_terminal_style(hovered: bool) -> Style
    returns
        if hovered {
            style::plain().fg(Color::White).bg(style::hover_bg())
        } else {
            style::plain().fg(style::accent()).bg(style::tab_bg())
        },
{
    if hovered {
        style::plain().fg(Color::White).bg(style::hover_bg())
    } else {
        style::plain().fg(style::accent()).bg(style::tab_bg())
    }
}

/// The steps that draw the row of terminals, whose labels and hints have the
/// given widths.
pub open spec fn terminal_row_ops(
    row: TerminalRow,
    area: Rect,
    widths: Seq<usize>,
    hint_widths: Seq<usize>,
) -> Seq<OpView> {
    let rects = tab_rects(area, terminal_tab_sizes(), widths);
    let tabs = op::no_ops().push(empty_row(area)) + terminal_tab_ops(
        row,
        rects,
        hint_widths,
        rects.len() as int,
    );
    match new_terminal_rect(area, widths) {
        Some(rect) => tabs.push(
            (OpView::Label {
                area: rect,
                text: " + "@,
                style: new_terminal_style(row.hover == HoverTarget::TerminalNew),
            }),
        ),
        None => tabs,
    }
}

/// Draws the row of terminals, whose labels and hints have the given widths.
pub fn draw_terminal_tabs_of_widths(
    row: &TerminalRow,
    area: Rect,
    widths: &Vec<usize>,
    hint_widths: &Vec<usize>,
) -> (drawing: TerminalTabsDrawing)
    requires
        area.wf(),
        widths@.len() == row.terminals@.len(),
        hint_widths@.len() == row.terminals@.len(),
    ensures
        op::ops_view(drawing.ops@) == terminal_row_ops(*row, area, widths@, hint_widths@),
        drawing.tabs@ == numbered(tab_rects(area, terminal_tab_sizes(), widths@)),
        drawing.closes@ == close_rects(tab_rects(area, terminal_tab_sizes(), widths@)),
        drawing.new_terminal == new_terminal_rect(area, widths@),
{
    let mut ops = op::none();
    op::push_label(&mut ops, area, "", style::tab_bar_style());
    let (rects, x) = tab_areas(area, TabSizes { low: 9, high: 20 }, widths);
    let ghost first = op::no_ops().push(empty_row(area));
    proof {
        tabs_stand_side_by_side(area, terminal_tab_sizes(), widths@);
        assert(first + op::no_ops() =~= first);
    }
    for i in 0..rects.len()
        invariant
            rects@.len() <= row.terminals@.len(),
            hint_widths@.len() == row.terminals@.len(),
            forall|j: int| 0 <= j < rects@.len() ==> (#[trigger] rects@[j]).wf(),
            op::ops_view(ops@) == first + terminal_tab_ops(
                *row,
                rects@,
                hint_widths@,
                i as int,
            ),
    {
        let ghost before = op::ops_view(ops@);
        let terminal = &row.terminals[i];
        let rect = rects[i];
        let active = row.active == i;
        let hovered = row.hover == HoverTarget::TerminalTab(i) || row.hover
            == HoverTarget::TerminalTabClose(i);
        let tab_style = terminal_tab_style(active, hovered, terminal.exited);
        let label = terminal_label_text(terminal);
        op::push_label(&mut ops, rect, &label, tab_style);
        if let Some(hint) = &terminal.exit_label {
            if active && rect.width > 12 && hint_widths[i] > 0 {
                let room: u16 = rect.width - 4;
                let hint_width: u16 = if hint_widths[i] < room as usize {
                    hint_widths[i] as u16
                } else {
                    room
                };
                let hint_area = Rect::new(
                    rect.right().saturating_sub(hint_width + 3),
                    rect.y,
                    hint_width,
                    1,
                );
                op::push_label(&mut ops, hint_area, hint, tab_style.bold());
            }
        }
        proof {
            let added = terminal_tab_op(*row, rect, hint_widths@, i as int);
            assert(op::ops_view(ops@) =~= before + added);
            assert(op::ops_view(ops@) =~= first + terminal_tab_ops(
                *row,
                rects@,
                hint_widths@,
                i + 1,
            ));
        }
    }
    let end = area.right();
    let new_terminal = if x < end {
        let room: u16 = end - x;
        let rect = Rect::new(
            x,
            area.y,
            if room < 5 {
                room
            } else {
                5
            },
            1,
        );
        op::push_label(
            &mut ops,
            rect,
            " + ",
            new_terminal_style(row.hover == HoverTarget::TerminalNew),
        );
        Some(rect)
    } else {
        None
    };
    let (tabs, closes) = tab_regions(&rects);
    TerminalTabsDrawing { ops, tabs, closes, new_terminal }
}

/// The widths of the labels of terminals.
pub open spec fn terminal_widths(terminals: Seq<TerminalLabel>) -> Seq<usize> {
    Seq::new(terminals.len(), |i: int| width::display_width(terminal_label(terminals[i])))
}

/// The widths of the texts that say how programs ended.
pub open spec fn hint_widths(terminals: Seq<TerminalLabel>) -> Seq<usize> {
    Seq::new(
        terminals.len(),
        |i: int|
            match terminals[i].exit_label {
                Some(hint) => width::display_width(hint@),
                None => 0,
            },
    )
}

/// Draws the row of terminals.
pub fn draw_terminal_tabs(row: &TerminalRow, area: Rect) -> (drawing: TerminalTabsDrawing)
    requires
        area.wf(),
    ensures
        op::ops_view(drawing.ops@) == terminal_row_ops(
            *row,
            area,
            terminal_widths(row.terminals@),
            hint_widths(row.terminals@),
        ),
        drawing.tabs@ == numbered(
            tab_rects(area, terminal_tab_sizes(), terminal_widths(row.terminals@)),
        ),
        drawing.closes@ == close_rects(
            tab_rects(area, terminal_tab_sizes(), terminal_widths(row.terminals@)),
        ),
        drawing.new_terminal == new_terminal_rect(area, terminal_widths(row.terminals@)),
{
    let mut widths: Vec<usize> = Vec::new();
    let mut hints: Vec<usize> = Vec::new();
    for i in 0..row.terminals.len()
        invariant
            widths@ == terminal_widths(row.terminals@).take(i as int),
            hints@ == hint_widths(row.terminals@).take(i as int),
    {
        let terminal = &row.terminals[i];
        let label = terminal_label_text(terminal);
        widths.push(width::text_width(&label));
        let hint: usize = match &terminal.exit_label {
            Some(hint) => width::text_width(hint),
            None => 0,
        };
        hints.push(hint);
        proof {
            assert(widths@ =~= terminal_widths(row.terminals@).take(i + 1));
            assert(hints@ =~= hint_widths(row.terminals@).take(i + 1));
        }
    }
    proof {
        assert(widths@ =~= terminal_widths(row.terminals@));
        assert(hints@ =~= hint_widths(row.terminals@));
    }
    draw_terminal_tabs_of_widths(row, area, &widths, &hints)
}

/// Every tab that is wide enough has a button that closes it, under its own number.
pub proof fn wide_tabs_can_be_closed(rects: Seq<Rect>, i: int)
    requires
        0 <= i < rects.len(),
        rects.len() <= usize::MAX,
    ensures
        rects[i].width >= 3 ==> close_rects(rects).contains((close_rect(rects[i]), i as usize)),
        forall|k: int|
            0 <= k < close_rects(rects).len() ==> {
                let (button, tab) = #[trigger] close_rects(rects)[k];
                &&& tab < rects.len()
                &&& rects[tab as int].width >= 3
                &&& button == close_rect(rects[tab as int])
            },
    decreases rects.len(),
{
    let head = rects.drop_last();
    let before = close_rects(head);
    let all = close_rects(rects);
    if head.len() > 0 {
        wide_tabs_can_be_closed(
            head,
            if i < head.len() {
                i
            } else {
                0
            },
        );
    } else {
        assert(before.len() == 0);
    }
    assert forall|k: int| 0 <= k < all.len() implies {
        let (button, tab) = #[trigger] all[k];
        &&& tab < rects.len()
        &&& rects[tab as int].width >= 3
        &&& button == close_rect(rects[tab as int])
    } by {
        if k < before.len() {
            assert(all[k] == before[k]);
            assert(head[before[k].1 as int] == rects[before[k].1 as int]);
        }
    }
    if rects[i].width >= 3 {
        if i < head.len() {
            assert(head[i] == rects[i]);
            let k = choose|k: int|
                0 <= k < before.len() && before[k] == (close_rect(rects[i]), i as usize);
            assert(all[k] == before[k]);
        } else {
            assert(all[before.len() as int] == (close_rect(rects[i]), i as usize));
        }
    }
}

/// The tab of a terminal is drawn where it stands, with its label; the active one that is
/// wide enough also tells how its program ended, left of the button that closes it.
pub proof fn terminal_tabs_tell_how_programs_ended(
    row: TerminalRow,
    tab: Rect,
    hint_widths: Seq<usize>,
    i: int,
)
    requires
        tab.wf(),
        0 <= i < row.terminals@.len(),
    ensures
        ({
            let ops = terminal_tab_op(row, tab, hint_widths, i);
            let hint = row.terminals@[i].exit_label;
            let shown = hint is Some && row.active == i && tab.width > 12 && hint_widths[i] > 0;
            &&& ops.len() == if shown {
                2
            } else {
                1int
            }
            &&& ops[0] is Label
            &&& ops[0]->Label_area == tab
            &&& ops[0]->Label_text == terminal_label(row.terminals@[i])
            &&& shown ==> {
                &&& ops[1] is Label
                &&& ops[1]->Label_text == hint->0@
                &&& ops[1]->Label_area.x + ops[1]->Label_area.width + 3 == tab.end_x()
                &&& ops[1]->Label_area.width == if hint_widths[i] < tab.width - 4 {
                    hint_widths[i] as int
                } else {
                    tab.width - 4
                }
                &&& ops[1]->Label_style.bold
            }
        }),
{
}

/// A tab that is active stands out, then one in the other pane, then one under the mouse;
/// else a file that is gone or changed on disk is told by its color.
pub proof fn tabs_stand_out_in_order(
    active: bool,
    split_peer: bool,
    hovered: bool,
    external: ExternalFileState,
)
    ensures
        ({
            let style = tab_style(active, split_peer, hovered, external);
            &&& style.bold == active
            &&& active ==> style.bg == Some(Color::Rgb(24, 64, 92))
            &&& !active && split_peer ==> style.bg == Some(Color::Rgb(38, 50, 62))
            &&& !active && !split_peer && hovered ==> style.bg == Some(Color::Rgb(42, 54, 71))
            &&& active || split_peer || hovered ==> style.fg == Some(Color::White)
            &&& !active && !split_peer && !hovered ==> {
                &&& style.bg == Some(Color::Rgb(18, 24, 33))
                &&& external is Deleted ==> style.fg == Some(Color::LightRed)
                &&& external is Modified ==> style.fg == Some(Color::Yellow)
                &&& external is Clean ==> style.fg == Some(Color::Rgb(205, 213, 224))
            }
        }),
        terminal_tab_style(active, hovered, true).fg == Some(Color::Rgb(248, 113, 113)),
        terminal_tab_style(active, hovered, false) == tab_style(
            active,
            false,
            hovered,
            ExternalFileState::Clean,
        ),
{
}

/// The button for a new terminal stands behind the last tab, where there is room for it.
pub proof fn new_terminals_are_opened_behind_the_last_tab(area: Rect, widths: Seq<usize>)
    requires
        area.wf(),
    ensures
        ({
            let start = tab_start(area, terminal_tab_sizes(), widths, widths.len() as int);
            let button = new_terminal_rect(area, widths);
            &&& button is Some <==> start < area.end_x()
            &&& button is Some ==> button->0.x == start && button->0.y == area.y
                && button->0.x + button->0.width <= area.end_x() && 1 <= button->0.width <= 5
        }),
        terminal_tab_sizes().low == 9 && terminal_tab_sizes().high == 20,
{
    lemma_tab_start(area, terminal_tab_sizes(), widths, 0, widths.len() as int);
}

/// The button for a new terminal lights up under the mouse.
pub proof fn the_button_for_a_new_terminal_lights_up(hovered: bool)
    ensures
        new_terminal_style(hovered).fg == Some(
            if hovered {
                Color::White
            } else {
                Color::Rgb(89, 169, 255)
            },
        ),
        new_terminal_style(hovered).bg == Some(
            if hovered {
                Color::Rgb(42, 54, 71)
            } else {
                Color::Rgb(18, 24, 33)
            },
        ),
        !new_terminal_style(hovered).bold,
{
}

} // verus!
