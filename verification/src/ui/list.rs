//! The lists at the side of the screen: the explorer and the outline.

use vstd::prelude::*;

use crate::fs_tree::ExplorerSortMode;
use crate::fs_tree::VisibleNode;
use crate::text;
use crate::ui::area::Rect;
use crate::ui::label;
use crate::ui::label::HoverTarget;
use crate::ui::line;
use crate::ui::op;
use crate::ui::op::DrawOp;
use crate::ui::op::OpView;
use crate::ui::status;
use crate::ui::style;
use crate::ui::width;

verus! {

/// The first row that a list shows: the one that it is scrolled to, or an
/// earlier one, so that no place is left empty behind the last row.
pub open spec fn first_row(len: nat, height: nat, scroll: nat) -> nat {
    let room = if height == 0 {
        1
    } else {
        height
    };
    let max = if len > room {
        (len - room) as nat
    } else {
        0
    };
    if scroll < max {
        scroll
    } else {
        max
    }
}

/// How many rows a list shows.
pub open spec fn shown_rows(len: nat, height: nat, scroll: nat) -> nat {
    let left = len - first_row(len, height, scroll);
    if height < left {
        height
    } else {
        left as nat
    }
}

/// However far a list is scrolled, it shows as many of its rows as there is room
/// for, and scrolling to what it shows changes nothing.
pub proof fn lists_are_shown_in_full(len: nat, height: nat, scroll: nat)
    ensures
        shown_rows(len, height, scroll) == if len < height {
            len
        } else {
            height
        },
        first_row(len, height, scroll) + shown_rows(len, height, scroll) <= len,
        first_row(len, height, first_row(len, height, scroll)) == first_row(len, height, scroll),
{
}

/// The first row that a list shows, and how many rows it shows.
pub fn window(len: usize, height: u16, scroll: usize) -> (shown: (usize, u16))
    ensures
        shown.0 == first_row(len as nat, height as nat, scroll as nat),
        shown.1 == shown_rows(len as nat, height as nat, scroll as nat),
{
    let room: usize = if height == 0 {
        1
    } else {
        height as usize
    };
    let max: usize = len.saturating_sub(room);
    let first: usize = if scroll < max {
        scroll
    } else {
        max
    };
    let left: usize = len - first;
    let count: u16 = if (height as usize) < left {
        height
    } else {
        left as u16
    };
    (first, count)
}

/// The areas of the rows that a list shows, with their numbers.
pub open spec fn row_rects(inner: Rect, first: nat, count: nat) -> Seq<(Rect, usize)> {
    Seq::new(count, |k: int| (inner.row(k), (first + k) as usize))
}

/// The rows that a list shows lie in its area, one below the other, and no cell
/// belongs to two of them.
pub proof fn rows_lie_below_each_other(inner: Rect, first: nat, count: nat)
    requires
        inner.wf(),
        count <= inner.height,
        first + count <= usize::MAX,
    ensures
        forall|k: int|
            0 <= k < count ==> {
                let (row, number) = #[trigger] row_rects(inner, first, count)[k];
                inner.holds(row) && row.y == inner.y + k && row.height == 1 && number == first + k
            },
{
}

/// The steps that draw the rows of a list.
pub open spec fn row_ops(
    inner: Rect,
    first: nat,
    count: nat,
    text: spec_fn(int) -> Seq<char>,
    style: spec_fn(int) -> style::Style,
) -> Seq<OpView> {
    Seq::new(
        count,
        |k: int|
            OpView::Label { area: inner.row(k), text: text(first + k), style: style(first + k) },
    )
}

/// The steps that draw a list, where its rows stand, how many rows it has room
/// for, and the first row that it shows.
#[derive(Debug, Clone, PartialEq, Eq)]
pub struct ListDrawing {
    pub ops: Vec<DrawOp>,
    pub rows: Vec<(Rect, usize)>,
    pub height: usize,
    pub scroll: usize,
}

#[verifier::ext_equal]
pub struct ListView {
    pub ops: Seq<OpView>,
    pub rows: Seq<(Rect, usize)>,
    pub height: nat,
    pub scroll: nat,
}

impl View for ListDrawing {
    type V = ListView;

    open spec fn view(&self) -> ListView {
        ListView {
            ops: op::ops_view(self.ops@),
            rows: self.rows@,
            height: self.height as nat,
            scroll: self.scroll as nat,
        }
    }
}

/// A row of the explorer.
#[derive(Debug, Clone, PartialEq, Eq)]
pub struct ExplorerRow {
    pub node: VisibleNode,
    pub multi_selected: bool,
    /// The mark of the change of a file.
    pub git_marker: Option<String>,
}

/// The explorer.
#[derive(Debug, Clone, PartialEq, Eq)]
pub struct Explorer {
    pub focused: bool,
    pub filter: Option<String>,
    pub show_hidden: bool,
    pub show_ignored: bool,
    pub sort: ExplorerSortMode,
    /// How many paths are selected besides the row of the cursor.
    pub selection_count: usize,
    pub rows: Vec<ExplorerRow>,
    pub scroll: usize,
    pub selected: usize,
    pub hover: HoverTarget,
    /// The row that what is dragged would be dropped on.
    pub drop_target: Option<usize>,
}

/// The title of the explorer.
pub open spec fn explorer_title(explorer: Explorer) -> Seq<char> {
    " Explorer  / filter  s sort:"@ + explorer.sort.label_text()
        + "  . hidden  i generated  n/N new  e rename  D delete  c copy  x cut  p paste  y dup  o reveal  O open  r refresh  "@
        + (if explorer.show_hidden {
        "hidden:on "@
    } else {
        "hidden:off "@
    }) + (if explorer.show_ignored {
        "generated:on"@
    } else {
        "generated:off"@
    }) + status::headed(" filter:"@, text::maybe(explorer.filter)) + status::counted(
        " sel:"@,
        explorer.selection_count,
    ) + (if explorer.selection_count != 0 {
        "  Space toggle  Shift/Ctrl-click  drag move  Alt-drag copy"@
    } else {
        status::nothing()
    }) + " "@
}

pub fn explorer_title_text(explorer: &Explorer) -> (out: String)
    ensures
        out@ == explorer_title(*explorer),
{
    let mut out = " Explorer  / filter  s sort:".to_owned();
    out.append(explorer.sort.label());
    out.append(
        "  . hidden  i generated  n/N new  e rename  D delete  c copy  x cut  p paste  y dup  o reveal  O open  r refresh  ",
    );
    if explorer.show_hidden {
        out.append("hidden:on ");
    } else {
        out.append("hidden:off ");
    }
    if explorer.show_ignored {
        out.append("generated:on");
    } else {
        out.append("generated:off");
    }
    status::push_headed(&mut out, " filter:", &explorer.filter);
    status::push_counted(&mut out, " sel:", explorer.selection_count);
    status::push_flag(
        &mut out,
        explorer.selection_count != 0,
        "  Space toggle  Shift/Ctrl-click  drag move  Alt-drag copy",
    );
    out.append(" ");
    out
}

/// The text at the left end of a row of the explorer: a mark where it is
/// selected, a place for each directory above it, a sign whether a directory is
/// expanded, and the name.
pub open spec fn node_prefix(node: VisibleNode, multi_selected: bool) -> Seq<char> {
    (if multi_selected {
        "*"@
    } else {
        " "@
    }) + line::spaces((2 * node.depth) as nat) + (if !node.is_dir {
        " "@
    } else if node.expanded {
        "-"@
    } else {
        "+"@
    }) + " "@ + node.name@
}

pub fn node_prefix_text(node: &VisibleNode, multi_selected: bool) -> (out: String)
    ensures
        out@ == node_prefix(*node, multi_selected),
{
    let mut out = (if multi_selected {
        "*"
    } else {
        " "
    }).to_owned();
    let ghost mark = out@;
    proof {
        assert(mark + line::spaces(0) =~= mark);
        reveal_strlit("  ");
    }
    for i in 0..node.depth
        invariant
            out@ == mark + line::spaces((2 * i) as nat),
            "  "@ == seq![' ', ' '],
    {
        out.append("  ");
        proof {
            assert(out@ =~= mark + line::spaces((2 * (i + 1)) as nat));
        }
    }
    out.append(
        if !node.is_dir {
            " "
        } else if node.expanded {
            "-"
        } else {
            "+"
        },
    );
    out.append(" ");
    out.append(&node.name);
    out
}

/// A row of the explorer, as wide as there is room.
pub open spec fn explorer_row_text(row: ExplorerRow, room: int) -> Seq<char> {
    let prefix = node_prefix(row.node, row.multi_selected);
    let suffix = label::node_suffix(
        row.node.is_dir,
        row.node.size,
        row.node.readonly,
        text::maybe(row.git_marker),
    );
    width::fitted(
        prefix,
        width::display_width(prefix) as int,
        suffix,
        width::display_width(suffix) as int,
        room,
    )
}

/// The style of row `i` of the explorer.
pub open spec fn explorer_style(explorer: Explorer, i: int) -> style::Style {
    style::explorer_row_style(
        explorer.focused && explorer.selected == i,
        explorer.hover == HoverTarget::ExplorerRow(i as usize),
        explorer.rows@[i].multi_selected,
        explorer.drop_target matches Some(target) && target == i,
    )
}

/// What is drawn of the explorer.
pub open spec fn explorer_view(explorer: Explorer, area: Rect) -> ListView {
    let inner = area.within_border();
    let len = explorer.rows@.len();
    let first = first_row(len, inner.height as nat, explorer.scroll as nat);
    let count = shown_rows(len, inner.height as nat, explorer.scroll as nat);
    ListView {
        ops: op::no_ops().push(
            (OpView::Panel {
                area,
                title: explorer_title(explorer),
                border: style::border_style(explorer.focused),
            }),
        ) + row_ops(
            inner,
            first,
            count,
            |i: int| explorer_row_text(explorer.rows@[i], inner.width as int),
            |i: int| explorer_style(explorer, i),
        ),
        rows: row_rects(inner, first, count),
        height: inner.height as nat,
        scroll: first,
    }
}

/// Draws the explorer.
pub fn draw_explorer(explorer: &Explorer, area: Rect) -> (drawing: ListDrawing)
    requires
        area.wf(),
    ensures
        drawing@ == explorer_view(*explorer, area),
{
    let inner = area.inner();
    let mut ops = op::none();
    let title = explorer_title_text(explorer);
    op::push(
        &mut ops,
        DrawOp::Panel { area, title, border: style::border_style(explorer.focused) },
    );
    let len: usize = explorer.rows.len();
    let (first, count) = window(len, inner.height, explorer.scroll);
    let mut rows: Vec<(Rect, usize)> = Vec::new();
    let ghost wanted = explorer_view(*explorer, area);
    proof {
        assert(op::ops_view(ops@) =~= wanted.ops.take(1));
    }
    for k in 0..count
        invariant
            inner == area.within_border(),
            inner.wf(),
            count <= inner.height,
            len == explorer.rows@.len(),
            first + count <= len,
            first == first_row(
                explorer.rows@.len(),
                inner.height as nat,
                explorer.scroll as nat,
            ),
            count == shown_rows(
                explorer.rows@.len(),
                inner.height as nat,
                explorer.scroll as nat,
            ),
            wanted == explorer_view(*explorer, area),
            op::ops_view(ops@) == wanted.ops.take(1 + k),
            rows@ == wanted.rows.take(k as int),
    {
        let index: usize = first + k as usize;
        let row_area = inner.row_at(k);
        rows.push((row_area, index));
        let row = &explorer.rows[index];
        let drop_target = match explorer.drop_target {
            Some(target) => target == index,
            None => false,
        };
        let row_style = style::explorer_row_style(
            explorer.focused && explorer.selected == index,
            explorer.hover == HoverTarget::ExplorerRow(index),
            row.multi_selected,
            drop_target,
        );
        let prefix = node_prefix_text(&row.node, row.multi_selected);
        let suffix = label::explorer_node_suffix(&row.node, &row.git_marker);
        let text = width::fit_with_suffix(&prefix, &suffix, row_area.width as usize);
        op::push_label(&mut ops, row_area, &text, row_style);
        proof {
            assert(op::ops_view(ops@) =~= wanted.ops.take(2 + k));
            assert(rows@ =~= wanted.rows.take(k + 1));
        }
    }
    proof {
        assert(wanted.ops.take(wanted.ops.len() as int) =~= wanted.ops);
        assert(wanted.rows.take(wanted.rows.len() as int) =~= wanted.rows);
    }
    ListDrawing { ops, rows, height: inner.height as usize, scroll: first }
}

/// A symbol of the outline.
#[derive(Debug, Clone, PartialEq, Eq)]
pub struct OutlineItem {
    pub label: String,
    pub detail: String,
    pub line: Option<usize>,
}

/// The outline of the open file.
#[derive(Debug, Clone, PartialEq, Eq)]
pub struct Outline {
    pub focused: bool,
    /// The title of the open tab.
    pub active: Option<String>,
    pub items: Vec<OutlineItem>,
    pub scroll: usize,
    pub selected: usize,
    pub hover: HoverTarget,
}

/// The title of the outline.
pub open spec fn outline_title(outline: Outline) -> Seq<char> {
    " Outline  m files  r refresh  O quick  "@ + width::truncated(
        match outline.active {
            Some(title) => title@,
            None => "no file"@,
        },
        24,
    ) + " "@
}

pub fn outline_title_text(outline: &Outline) -> (out: String)
    ensures
        out@ == outline_title(*outline),
{
    let mut out = " Outline  m files  r refresh  O quick  ".to_owned();
    match &outline.active {
        Some(title) => {
            out.append(&width::truncate_width(title, 24));
        },
        None => {
            out.append(&width::truncate_width("no file", 24));
        },
    }
    out.append(" ");
    out
}

/// A row of the outline, as wide as there is room: the symbol, and at the right
/// end its line, counted from one.
pub open spec fn outline_row_text(item: OutlineItem, room: int) -> Seq<char> {
    let prefix = "  "@ + item.label@ + "  "@ + item.detail@;
    let suffix = match item.line {
        Some(line) => " "@ + text::decimal((line + 1) as nat),
        None => status::nothing(),
    };
    width::fitted(
        prefix,
        width::display_width(prefix) as int,
        suffix,
        width::display_width(suffix) as int,
        room,
    )
}

pub fn outline_row(item: &OutlineItem, room: usize) -> (out: String)
    ensures
        out@ == outline_row_text(*item, room as int),
{
    let mut prefix = "  ".to_owned();
    prefix.append(&item.label);
    prefix.append("  ");
    prefix.append(&item.detail);
    let mut suffix = String::new();
    if let Some(line) = item.line {
        suffix.append(" ");
        status::push_ordinal(&mut suffix, line);
        proof {
            assert(suffix@ =~= " "@ + text::decimal((line + 1) as nat));
        }
    }
    proof {
        assert(suffix@ =~= match item.line {
            Some(line) => " "@ + text::decimal((line + 1) as nat),
            None => status::nothing(),
        });
    }
    width::fit_with_suffix(&prefix, &suffix, room)
}

/// The row of the outline that is selected.
pub open spec fn outline_selection(outline: Outline) -> nat {
    if outline.selected < outline.items@.len() {
        outline.selected as nat
    } else if outline.items@.len() == 0 {
        0
    } else {
        (outline.items@.len() - 1) as nat
    }
}

/// The style of row `i` of the outline.
pub open spec fn outline_style(outline: Outline, i: int) -> style::Style {
    style::row_style(
        outline.focused && outline_selection(outline) == i,
        outline.hover == HoverTarget::OutlineRow(i as usize),
    )
}

/// What is drawn of the outline.
pub open spec fn outline_view(outline: Outline, area: Rect) -> ListView {
    let inner = area.within_border();
    let len = outline.items@.len();
    let first = first_row(len, inner.height as nat, outline.scroll as nat);
    let count = shown_rows(len, inner.height as nat, outline.scroll as nat);
    let panel = op::no_ops().push(
        (OpView::Panel {
            area,
            title: outline_title(outline),
            border: style::border_style(outline.focused),
        }),
    );
    ListView {
        ops: if len == 0 {
            panel.push(
                (OpView::Label {
                    area: inner,
                    text: "Open a source file to see symbols."@,
                    style: style::muted_style(),
                }),
            )
        } else {
            panel + row_ops(
                inner,
                first,
                count,
                |i: int| outline_row_text(outline.items@[i], inner.width as int),
                |i: int| outline_style(outline, i),
            )
        },
        rows: row_rects(inner, first, count),
        height: inner.height as nat,
        scroll: first,
    }
}

/// Draws the outline, and says which of its rows is selected.
pub fn draw_outline(outline: &Outline, area: Rect) -> (drawn: (ListDrawing, usize))
    requires
        area.wf(),
    ensures
        drawn.0@ == outline_view(*outline, area),
        drawn.1 == outline_selection(*outline),
{
    let inner = area.inner();
    let mut ops = op::none();
    let title = outline_title_text(outline);
    op::push(
        &mut ops,
        DrawOp::Panel { area, title, border: style::border_style(outline.focused) },
    );
    let len: usize = outline.items.len();
    let (first, count) = window(len, inner.height, outline.scroll);
    let last: usize = len.saturating_sub(1);
    let selection: usize = if outline.selected < last {
        outline.selected
    } else {
        last
    };
    let mut rows: Vec<(Rect, usize)> = Vec::new();
    let ghost wanted = outline_view(*outline, area);
    if len == 0 {
        op::push_label(
            &mut ops,
            inner,
            "Open a source file to see symbols.",
            style::muted_style(),
        );
        let drawing = ListDrawing { ops, rows, height: inner.height as usize, scroll: first };
        proof {
            assert(drawing@ =~= wanted);
        }
        return (drawing, selection);
    }
    proof {
        assert(op::ops_view(ops@) =~= wanted.ops.take(1));
    }
    for k in 0..count
        invariant
            inner == area.within_border(),
            inner.wf(),
            count <= inner.height,
            len == outline.items@.len(),
            len > 0,
            first + count <= len,
            first == first_row(
                outline.items@.len(),
                inner.height as nat,
                outline.scroll as nat,
            ),
            count == shown_rows(
                outline.items@.len(),
                inner.height as nat,
                outline.scroll as nat,
            ),
            selection == outline_selection(*outline),
            wanted == outline_view(*outline, area),
            op::ops_view(ops@) == wanted.ops.take(1 + k),
            rows@ == wanted.rows.take(k as int),
    {
        let index: usize = first + k as usize;
        let row_area = inner.row_at(k);
        rows.push((row_area, index));
        let row_style = style::row_style(
            outline.focused && selection == index,
            outline.hover == HoverTarget::OutlineRow(index),
        );
        let text = outline_row(&outline.items[index], row_area.width as usize);
        op::push_label(&mut ops, row_area, &text, row_style);
        proof {
            assert(op::ops_view(ops@) =~= wanted.ops.take(2 + k));
            assert(rows@ =~= wanted.rows.take(k + 1));
        }
    }
    proof {
        assert(wanted.ops.take(wanted.ops.len() as int) =~= wanted.ops);
        assert(wanted.rows.take(wanted.rows.len() as int) =~= wanted.rows);
    }
    (ListDrawing { ops, rows, height: inner.height as usize, scroll: first }, selection)
}

} // verus!
