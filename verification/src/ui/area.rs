//! Areas of the screen.

use vstd::prelude::*;

use ::ratatui::layout::Direction;
use ::ratatui::layout::Layout;

verus! {

/// A rectangle of the screen.
#[derive(Debug, Clone, Copy, PartialEq, Eq, Structural)]
pub struct Rect {
    pub x: u16,
    pub y: u16,
    pub width: u16,
    pub height: u16,
}

/// How much room a part of a split area is to have.
#[derive(Debug, Clone, Copy, PartialEq, Eq, Structural)]
pub enum Constraint {
    Length(u16),
    Min(u16),
    Percentage(u16),
}

impl Rect {
    /// The area ends within the coordinates that there are.
    pub open spec fn wf(self) -> bool {
        self.x + self.width <= u16::MAX && self.y + self.height <= u16::MAX
    }

    /// The first column behind the area.
    pub open spec fn end_x(self) -> int {
        self.x + self.width
    }

    /// The first row below the area.
    pub open spec fn end_y(self) -> int {
        self.y + self.height
    }

    /// Whether another area lies in this one.
    pub open spec fn holds(self, other: Rect) -> bool {
        &&& self.x <= other.x
        &&& self.y <= other.y
        &&& other.end_x() <= self.end_x()
        &&& other.end_y() <= self.end_y()
    }

    /// The area within a border of one cell on all sides.
    pub open spec fn within_border(self) -> Rect {
        Rect {
            x: if self.width > 0 {
                (self.x + 1) as u16
            } else {
                self.x
            },
            y: if self.height > 0 {
                (self.y + 1) as u16
            } else {
                self.y
            },
            width: if self.width > 1 {
                (self.width - 2) as u16
            } else {
                0
            },
            height: if self.height > 1 {
                (self.height - 2) as u16
            } else {
                0
            },
        }
    }

    /// An area of a size, cut so that it ends within the coordinates that there
    /// are.
    pub open spec fn cut(x: u16, y: u16, width: u16, height: u16) -> Rect {
        Rect {
            x,
            y,
            width: if x + width <= u16::MAX {
                width
            } else {
                (u16::MAX - x) as u16
            },
            height: if y + height <= u16::MAX {
                height
            } else {
                (u16::MAX - y) as u16
            },
        }
    }

    /// An area of a size, cut so that it ends within the coordinates that there
    /// are.
    pub fn new(x: u16, y: u16, width: u16, height: u16) -> (area: Rect)
        ensures
            area == Rect::cut(x, y, width, height),
            area.wf(),
    {
        Rect { x, y, width: x.saturating_add(width) - x, height: y.saturating_add(height) - y }
    }

    /// The row of an area with the given number.
    pub open spec fn row(self, n: int) -> Rect {
        Rect { x: self.x, y: (self.y + n) as u16, width: self.width, height: 1 }
    }

    pub fn right(self) -> (end: u16)
        requires
            self.wf(),
        ensures
            end == self.end_x(),
    {
        self.x + self.width
    }

    pub fn bottom(self) -> (end: u16)
        requires
            self.wf(),
        ensures
            end == self.end_y(),
    {
        self.y + self.height
    }

    /// The area within a border.
    pub fn inner(self) -> (inner: Rect)
        requires
            self.wf(),
        ensures
            inner == self.within_border(),
            inner.wf(),
            self.holds(inner),
    {
        Rect {
            x: if self.width > 0 {
                self.x + 1
            } else {
                self.x
            },
            y: if self.height > 0 {
                self.y + 1
            } else {
                self.y
            },
            width: self.width.saturating_sub(2),
            height: self.height.saturating_sub(2),
        }
    }

    /// The row of an area with the given number.
    pub fn row_at(self, n: u16) -> (row: Rect)
        requires
            self.wf(),
            n < self.height,
        ensures
            row == self.row(n as int),
            row.wf(),
            self.holds(row),
    {
        Rect { x: self.x, y: self.y + n, width: self.width, height: 1 }
    }
}

/// Whether `Layout::split` of the `ratatui` crate may split an area like this.
/// How it divides an area that is too small, or the rest of a division, is left
/// to it.
pub uninterp spec fn may_split(
    area: Rect,
    vertical: bool,
    constraints: Seq<Constraint>,
    parts: Seq<Rect>,
) -> bool;

/// Whether areas lie within an area, each of them as wide as it, or as high.
pub open spec fn are_parts(area: Rect, vertical: bool, parts: Seq<Rect>) -> bool {
    forall|i: int|
        0 <= i < parts.len() ==> {
            let part = #[trigger] parts[i];
            &&& part.wf()
            &&& area.holds(part)
            &&& vertical ==> part.x == area.x && part.width == area.width
            &&& !vertical ==> part.y == area.y && part.height == area.height
        }
}

/// Calls `Layout::split` of the `ratatui` crate without margins or spacing: one
/// part of the area for each constraint, each of them as wide as the area, or
/// as high.
#[verifier::external_body]
pub(crate) fn split(area: Rect, vertical: bool, constraints: &Vec<Constraint>) -> (parts: Vec<Rect>)
    requires
        area.wf(),
    ensures
        parts@.len() == constraints@.len(),
        may_split(area, vertical, constraints@, parts@),
        are_parts(area, vertical, parts@),
{
    let whole = ::ratatui::layout::Rect::new(area.x, area.y, area.width, area.height);
    let wanted = constraints.iter().map(|constraint| match constraint {
        Constraint::Length(n) => ::ratatui::layout::Constraint::Length(*n),
        Constraint::Min(n) => ::ratatui::layout::Constraint::Min(*n),
        Constraint::Percentage(n) => ::ratatui::layout::Constraint::Percentage(*n),
    });
    let direction = if vertical { Direction::Vertical } else { Direction::Horizontal };
    let parts = Layout::default().direction(direction).constraints(wanted).split(whole);
    parts
        .iter()
        .map(|part| Rect { x: part.x, y: part.y, width: part.width, height: part.height })
        .collect()
}

/// Splits an area in two by the given constraints.
fn split_two(area: Rect, vertical: bool, first: Constraint, second: Constraint) -> (parts: (
    Rect,
    Rect,
))
    requires
        area.wf(),
    ensures
        may_split(area, vertical, seq![first, second], seq![parts.0, parts.1]),
        are_parts(area, vertical, seq![parts.0, parts.1]),
{
    let mut constraints: Vec<Constraint> = Vec::new();
    constraints.push(first);
    constraints.push(second);
    let parts = split(area, vertical, &constraints);
    proof {
        assert(constraints@ =~= seq![first, second]);
        assert(parts@ =~= seq![parts@[0], parts@[1]]);
    }
    (parts[0], parts[1])
}

/// Splits an area in three by the given constraints.
fn split_three(
    area: Rect,
    vertical: bool,
    first: Constraint,
    second: Constraint,
    third: Constraint,
) -> (parts: (Rect, Rect, Rect))
    requires
        area.wf(),
    ensures
        may_split(
            area,
            vertical,
            seq![first, second, third],
            seq![parts.0, parts.1, parts.2],
        ),
        are_parts(area, vertical, seq![parts.0, parts.1, parts.2]),
{
    let mut constraints: Vec<Constraint> = Vec::new();
    constraints.push(first);
    constraints.push(second);
    constraints.push(third);
    let parts = split(area, vertical, &constraints);
    proof {
        assert(constraints@ =~= seq![first, second, third]);
        assert(parts@ =~= seq![parts@[0], parts@[1], parts@[2]]);
    }
    (parts[0], parts[1], parts[2])
}

/// Where the parts of the workspace stand on the screen. There is no editor
/// where the terminal is maximized.
#[derive(Debug, Clone, Copy, PartialEq, Eq)]
pub struct ScreenAreas {
    pub title: Rect,
    pub body: Rect,
    pub status: Rect,
    pub sidebar: Rect,
    pub main: Rect,
    pub editor: Option<Rect>,
    pub terminal: Rect,
}

/// Whether the parts of the workspace stand where they belong: a line at the
/// top and one at the bottom, the sidebar of 32 columns, and beside it the
/// editor above the terminal, which has at least four rows.
pub open spec fn is_screen(
    area: Rect,
    terminal_maximized: bool,
    terminal_rows: u16,
    areas: ScreenAreas,
) -> bool {
    let rows = if terminal_rows < 4 {
        4u16
    } else {
        terminal_rows
    };
    &&& may_split(
        area,
        true,
        seq![Constraint::Length(1), Constraint::Min(8), Constraint::Length(1)],
        seq![areas.title, areas.body, areas.status],
    )
    &&& may_split(
        areas.body,
        false,
        seq![Constraint::Length(32), Constraint::Min(30)],
        seq![areas.sidebar, areas.main],
    )
    &&& match areas.editor {
        None => terminal_maximized && areas.terminal == areas.main,
        Some(editor) => !terminal_maximized && may_split(
            areas.main,
            true,
            seq![Constraint::Min(8), Constraint::Length(rows)],
            seq![editor, areas.terminal],
        ),
    }
}

impl ScreenAreas {
    pub open spec fn wf(self) -> bool {
        &&& self.title.wf()
        &&& self.body.wf()
        &&& self.status.wf()
        &&& self.sidebar.wf()
        &&& self.main.wf()
        &&& self.editor matches Some(editor) ==> editor.wf()
        &&& self.terminal.wf()
    }
}

/// Divides the screen.
pub fn screen_areas(area: Rect, terminal_maximized: bool, terminal_rows: u16) -> (areas: ScreenAreas)
    requires
        area.wf(),
    ensures
        is_screen(area, terminal_maximized, terminal_rows, areas),
        areas.wf(),
        area.holds(areas.body) && areas.body.holds(areas.sidebar) && areas.body.holds(areas.main),
{
    let (title, body, status) = split_three(
        area,
        true,
        Constraint::Length(1),
        Constraint::Min(8),
        Constraint::Length(1),
    );
    proof {
        let parts = seq![title, body, status];
        assert(parts[0] == title && parts[1] == body && parts[2] == status);
    }
    let (sidebar, main) = split_two(body, false, Constraint::Length(32), Constraint::Min(30));
    proof {
        let parts = seq![sidebar, main];
        assert(parts[0] == sidebar && parts[1] == main);
    }
    if terminal_maximized {
        return ScreenAreas { title, body, status, sidebar, main, editor: None, terminal: main };
    }
    let rows: u16 = if terminal_rows < 4 {
        4
    } else {
        terminal_rows
    };
    let (editor, terminal) = split_two(main, true, Constraint::Min(8), Constraint::Length(rows));
    proof {
        let parts = seq![editor, terminal];
        assert(parts[0] == editor && parts[1] == terminal);
    }
    ScreenAreas { title, body, status, sidebar, main, editor: Some(editor), terminal }
}

/// Divides the area of the editor: a line for the tabs, and the panes.
pub fn editor_areas(area: Rect) -> (areas: (Rect, Rect))
    requires
        area.wf(),
    ensures
        may_split(
            area,
            true,
            seq![Constraint::Length(1), Constraint::Min(3)],
            seq![areas.0, areas.1],
        ),
        areas.0.wf() && areas.1.wf(),
        area.holds(areas.0) && area.holds(areas.1),
{
    let areas = split_two(area, true, Constraint::Length(1), Constraint::Min(3));
    proof {
        let parts = seq![areas.0, areas.1];
        assert(parts[0] == areas.0 && parts[1] == areas.1);
    }
    areas
}

/// Divides an area in two halves with a column between them.
pub fn halves(area: Rect) -> (areas: (Rect, Rect, Rect))
    requires
        area.wf(),
    ensures
        may_split(
            area,
            false,
            seq![Constraint::Percentage(50), Constraint::Length(1), Constraint::Percentage(50)],
            seq![areas.0, areas.1, areas.2],
        ),
        areas.0.wf() && areas.1.wf() && areas.2.wf(),
        area.holds(areas.0) && area.holds(areas.1) && area.holds(areas.2),
{
    let areas = split_three(
        area,
        false,
        Constraint::Percentage(50),
        Constraint::Length(1),
        Constraint::Percentage(50),
    );
    proof {
        let parts = seq![areas.0, areas.1, areas.2];
        assert(parts[0] == areas.0 && parts[1] == areas.1 && parts[2] == areas.2);
    }
    areas
}

/// Divides the area of the terminal within its border: a line for the tabs and
/// the panes below it, where there is more than one row, else the panes alone.
pub fn terminal_areas(inner: Rect) -> (areas: (Option<Rect>, Rect))
    requires
        inner.wf(),
    ensures
        areas.1.wf(),
        inner.holds(areas.1),
        match areas.0 {
            Some(tabs) => inner.height > 1 && tabs.wf() && inner.holds(tabs) && may_split(
                inner,
                true,
                seq![Constraint::Length(1), Constraint::Min(1)],
                seq![tabs, areas.1],
            ),
            None => inner.height <= 1 && areas.1 == inner,
        },
{
    if inner.height > 1 {
        let (tabs, body) = split_two(inner, true, Constraint::Length(1), Constraint::Min(1));
        proof {
            let parts = seq![tabs, body];
            assert(parts[0] == tabs && parts[1] == body);
        }
        (Some(tabs), body)
    } else {
        (None, inner)
    }
}

/// The area within a border leaves one cell on each side.
pub proof fn borders_take_one_cell_on_each_side(area: Rect)
    requires
        area.wf(),
        area.width >= 2,
        area.height >= 2,
    ensures
        area.within_border().x == area.x + 1,
        area.within_border().y == area.y + 1,
        area.within_border().x + area.within_border().width + 1 == area.x + area.width,
        area.within_border().y + area.within_border().height + 1 == area.y + area.height,
{
}

/// A terminal takes the rows that it is given, but never fewer than four; a maximized
/// one takes the place of the editor.
pub proof fn terminals_have_at_least_four_rows(
    area: Rect,
    maximized: bool,
    rows: u16,
    areas: ScreenAreas,
)
    requires
        is_screen(area, maximized, rows, areas),
    ensures
        areas.editor is None <==> maximized,
        maximized ==> areas.terminal == areas.main,
        rows < 4 ==> is_screen(area, maximized, 4, areas),
        !maximized && rows >= 4 ==> may_split(
            areas.main,
            true,
            seq![Constraint::Min(8), Constraint::Length(rows)],
            seq![areas.editor->0, areas.terminal],
        ),
{
}

} // verus!
