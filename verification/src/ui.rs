//! What is drawn: the lines, styles and areas of the workspace on the screen.

pub mod area;
pub mod editor;
pub mod label;
pub mod laws;
pub mod line;
pub mod list;
pub mod marks;
pub mod op;
pub mod popup;
pub mod status;
pub mod style;
pub mod tabs;
pub mod terminal;
pub mod width;

use vstd::prelude::*;

use crate::path::FsPath;
use crate::ui::area::Rect;
use crate::ui::area::ScreenAreas;
use crate::ui::editor::Editor;
use crate::ui::editor::EditorAreas;
use crate::ui::editor::EditorDrawing;
use crate::ui::label::FocusPanel;
use crate::ui::list::Explorer;
use crate::ui::list::ListDrawing;
use crate::ui::list::Outline;
use crate::ui::op::DrawOp;
use crate::ui::op::OpView;
use crate::ui::popup::HoverState;
use crate::ui::popup::QuickPanel;
use crate::ui::status::Status;
use crate::ui::terminal::TerminalAreas;
use crate::ui::terminal::TerminalDrawing;
use crate::ui::terminal::TerminalPanel;

verus! {

/// What stands at the side of the screen.
#[derive(Debug, Clone, PartialEq, Eq)]
pub enum Sidebar {
    Files(Explorer),
    Outline(Outline),
}

/// The workspace as it is to be drawn.
#[derive(Debug, Clone, PartialEq, Eq)]
pub struct Workspace {
    pub root: FsPath,
    /// The root as it is shown.
    pub root_text: String,
    /// The name of what stands at the side.
    pub sidebar_label: String,
    pub focus: FocusPanel,
    pub sidebar: Sidebar,
    pub terminal_rows: u16,
    pub editor: Editor,
    pub terminal: TerminalPanel,
    /// The symbol under the mouse; `editor_shown` says whether the active pane
    /// is among those in view.
    pub hover: HoverState,
    pub quick: Option<QuickPanel>,
    pub status: Status,
}

/// The parts of the screen in the order in which they are drawn. The panes of
/// the editor and of the terminal are drawn right behind their part.
#[derive(Debug, Clone, PartialEq, Eq)]
pub struct ScreenDrawing {
    pub areas: ScreenAreas,
    pub title: Vec<DrawOp>,
    pub sidebar: ListDrawing,
    /// The selected row of the outline, where that stands at the side.
    pub outline_selected: Option<usize>,
    pub editor: Option<(EditorAreas, EditorDrawing)>,
    pub terminal_areas: TerminalAreas,
    pub terminal: TerminalDrawing,
    pub hover: Vec<DrawOp>,
    pub quick: Option<ListDrawing>,
    pub status: Vec<DrawOp>,
}

/// A line of text over a whole area.
pub open spec fn bar(area: Rect, text: Seq<char>, style: style::Style) -> Seq<OpView> {
    op::no_ops().push((OpView::Label { area, text, style }))
}

/// The symbol under the mouse as the screen shows it: there is no editor beside
/// a maximized terminal.
pub open spec fn hover_on_screen(workspace: Workspace) -> HoverState {
    HoverState {
        editor_shown: workspace.hover.editor_shown && !workspace.terminal.maximized,
        ..workspace.hover
    }
}

/// Whether the parts of the screen are drawn as they belong.
pub open spec fn is_drawing(workspace: Workspace, area: Rect, drawing: ScreenDrawing) -> bool {
    let areas = drawing.areas;
    &&& area::is_screen(area, workspace.terminal.maximized, workspace.terminal_rows, areas)
    &&& op::ops_view(drawing.title@) == bar(
        areas.title,
        status::title_line(
            workspace.root_text@,
            workspace.sidebar_label@,
            workspace.focus,
        ),
        style::bar_style(),
    )
    &&& match workspace.sidebar {
        Sidebar::Files(explorer) => {
            &&& drawing.sidebar@ == list::explorer_view(explorer, areas.sidebar)
            &&& drawing.outline_selected is None
        },
        Sidebar::Outline(outline) => {
            &&& drawing.sidebar@ == list::outline_view(outline, areas.sidebar)
            &&& drawing.outline_selected matches Some(row) && row == list::outline_selection(
                outline,
            )
        },
    }
    &&& match (areas.editor, drawing.editor) {
        (Some(editor_area), Some((editor_areas, editor))) => {
            &&& editor::is_editor_layout(
                editor_area,
                workspace.editor.panes@.len(),
                editor_areas,
            )
            &&& editor@ == editor::editor_view(workspace.editor, editor_areas)
        },
        (None, None) => true,
        _ => false,
    }
    &&& terminal::is_terminal_layout(
        areas.terminal,
        workspace.terminal.visible@.len(),
        drawing.terminal_areas,
    )
    &&& drawing.terminal@ == terminal::terminal_view(
        workspace.terminal,
        areas.terminal,
        drawing.terminal_areas,
    )
    &&& op::ops_view(drawing.hover@) == popup::hover_ops(
        hover_on_screen(workspace),
        workspace.root,
        areas.body,
    )
    &&& match (workspace.quick, drawing.quick) {
        (Some(panel), Some(quick)) => quick@ == popup::quick_view(panel, areas.body),
        (None, None) => true,
        _ => false,
    }
    &&& op::ops_view(drawing.status@) == bar(
        areas.status,
        status::status_line(workspace.status),
        status::status_style(workspace.status.prompt is Some),
    )
}

fn draw_sidebar(sidebar: &Sidebar, area: Rect) -> (drawn: (ListDrawing, Option<usize>))
    requires
        area.wf(),
    ensures
        match *sidebar {
            Sidebar::Files(explorer) => {
                &&& drawn.0@ == list::explorer_view(explorer, area)
                &&& drawn.1 is None
            },
            Sidebar::Outline(outline) => {
                &&& drawn.0@ == list::outline_view(outline, area)
                &&& drawn.1 matches Some(row) && row == list::outline_selection(outline)
            },
        },
{
    match sidebar {
        Sidebar::Files(explorer) => (list::draw_explorer(explorer, area), None),
        Sidebar::Outline(outline) => {
            let (drawing, selected) = list::draw_outline(outline, area);
            (drawing, Some(selected))
        },
    }
}

fn draw_hover(workspace: &Workspace, area: Rect) -> (ops: Vec<DrawOp>)
    requires
        area.wf(),
    ensures
        op::ops_view(ops@) == popup::hover_ops(
            hover_on_screen(*workspace),
            workspace.root,
            area,
        ),
{
    if workspace.terminal.maximized {
        return op::none();
    }
    popup::draw_editor_hover(&workspace.hover, &workspace.root, area)
}

/// Draws the workspace but for the panes of the editor and of the terminal.
pub fn draw(workspace: &Workspace, area: Rect) -> (drawing: ScreenDrawing)
    requires
        area.wf(),
        workspace.quick is Some ==> area.end_y() < u16::MAX,
    ensures
        is_drawing(*workspace, area, drawing),
{
    let areas = area::screen_areas(area, workspace.terminal.maximized, workspace.terminal_rows);
    let title = status::draw_title(
        &workspace.root_text,
        &workspace.sidebar_label,
        workspace.focus,
        areas.title,
    );
    let (sidebar, outline_selected) = draw_sidebar(&workspace.sidebar, areas.sidebar);
    let editor = match areas.editor {
        Some(editor_area) => Some(editor::draw_editor(&workspace.editor, editor_area)),
        None => None,
    };
    let (terminal_areas, terminal) = terminal::draw_terminal(&workspace.terminal, areas.terminal);
    let hover = draw_hover(workspace, areas.body);
    let quick = match &workspace.quick {
        Some(panel) => Some(popup::draw_quick_panel(panel, areas.body)),
        None => None,
    };
    let status = status::draw_status(&workspace.status, areas.status);
    ScreenDrawing {
        areas,
        title,
        sidebar,
        outline_selected,
        editor,
        terminal_areas,
        terminal,
        hover,
        quick,
        status,
    }
}

/// The title stands in the upper bar and the status in the lower one, each in its style;
/// a symbol is explained only beside an editor; and what was opened over the rest is
/// drawn over the body of the screen.
pub proof fn screens_are_drawn_part_by_part(
    workspace: Workspace,
    area: Rect,
    drawing: ScreenDrawing,
)
    requires
        is_drawing(workspace, area, drawing),
    ensures
        op::ops_view(drawing.title@).len() == 1,
        op::ops_view(drawing.title@)[0] == (OpView::Label {
            area: drawing.areas.title,
            text: status::title_line(
                workspace.root_text@,
                workspace.sidebar_label@,
                workspace.focus,
            ),
            style: style::bar_style(),
        }),
        op::ops_view(drawing.status@).len() == 1,
        op::ops_view(drawing.status@)[0] == (OpView::Label {
            area: drawing.areas.status,
            text: status::status_line(workspace.status),
            style: status::status_style(workspace.status.prompt is Some),
        }),
        drawing.editor is None <==> workspace.terminal.maximized,
        workspace.terminal.maximized ==> drawing.hover@.len() == 0,
        drawing.quick is Some <==> workspace.quick is Some,
        drawing.outline_selected is Some <==> workspace.sidebar is Outline,
        hover_on_screen(workspace).hover == workspace.hover.hover,
        !workspace.terminal.maximized ==> hover_on_screen(workspace) == workspace.hover,
{
}

} // verus!
