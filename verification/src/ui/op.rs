//! The steps of drawing.

use vstd::prelude::*;

use crate::ui::area::Rect;
use crate::ui::line;
use crate::ui::line::Span;
use crate::ui::style;
use crate::ui::style::Style;

verus! {

/// A line of styled text.
#[derive(Debug, Clone, PartialEq, Eq)]
pub struct StyledLine {
    pub spans: Vec<Span>,
    pub style: Style,
}

/// A step of drawing.
#[derive(Debug, Clone, PartialEq, Eq)]
pub enum DrawOp {
    /// Clear an area.
    Clear(Rect),
    /// A panel with a border and a title.
    Panel { area: Rect, title: String, border: Style },
    /// A text in one style.
    Label { area: Rect, text: String, style: Style },
    /// Lines of styled text, with a style below theirs.
    Lines { area: Rect, lines: Vec<StyledLine>, style: Style },
    /// Put the cursor in a cell.
    Cursor { x: u16, y: u16 },
}

#[verifier::ext_equal]
pub struct LineView {
    pub spans: Seq<(Seq<char>, Style)>,
    pub style: Style,
}

#[verifier::ext_equal]
pub enum OpView {
    Clear(Rect),
    Panel { area: Rect, title: Seq<char>, border: Style },
    Label { area: Rect, text: Seq<char>, style: Style },
    Lines { area: Rect, lines: Seq<LineView>, style: Style },
    Cursor { x: u16, y: u16 },
}

impl View for StyledLine {
    type V = LineView;

    open spec fn view(&self) -> LineView {
        LineView { spans: line::spans_view(self.spans@), style: self.style }
    }
}

pub open spec fn lines_view(lines: Seq<StyledLine>) -> Seq<LineView> {
    Seq::new(lines.len(), |i: int| lines[i]@)
}

impl View for DrawOp {
    type V = OpView;

    open spec fn view(&self) -> OpView {
        match self {
            DrawOp::Clear(area) => OpView::Clear(*area),
            DrawOp::Panel { area, title, border } => OpView::Panel {
                area: *area,
                title: title@,
                border: *border,
            },
            DrawOp::Label { area, text, style } => OpView::Label {
                area: *area,
                text: text@,
                style: *style,
            },
            DrawOp::Lines { area, lines, style } => OpView::Lines {
                area: *area,
                lines: lines_view(lines@),
                style: *style,
            },
            DrawOp::Cursor { x, y } => OpView::Cursor { x: *x, y: *y },
        }
    }
}

pub open spec fn ops_view(ops: Seq<DrawOp>) -> Seq<OpView> {
    Seq::new(ops.len(), |i: int| ops[i]@)
}

pub open spec fn no_ops() -> Seq<OpView> {
    Seq::empty()
}

/// No steps.
pub fn none() -> (ops: Vec<DrawOp>)
    ensures
        ops_view(ops@) == no_ops(),
{
    let ops: Vec<DrawOp> = Vec::new();
    proof {
        assert(ops_view(ops@) =~= no_ops());
    }
    ops
}

/// Appends a step.
pub fn push(ops: &mut Vec<DrawOp>, op: DrawOp)
    ensures
        ops_view(final(ops)@) == ops_view(old(ops)@).push(op@),
{
    ops.push(op);
    proof {
        assert(ops_view(ops@) =~= ops_view(old(ops)@).push(op@));
    }
}

/// Appends a text in one style.
pub fn push_label(ops: &mut Vec<DrawOp>, area: Rect, text: &str, style: Style)
    ensures
        ops_view(final(ops)@) == ops_view(old(ops)@).push(
            (OpView::Label { area, text: text@, style }),
        ),
{
    push(ops, DrawOp::Label { area, text: text.to_owned(), style });
}

/// Appends steps.
pub fn append(ops: &mut Vec<DrawOp>, more: &mut Vec<DrawOp>)
    ensures
        ops_view(final(ops)@) == ops_view(old(ops)@) + ops_view(old(more)@),
        final(more)@.len() == 0,
{
    ops.append(more);
    proof {
        assert(ops_view(ops@) =~= ops_view(old(ops)@) + ops_view(old(more)@));
    }
}

/// The column of bars between two panes.
pub open spec fn separator(area: Rect) -> OpView {
    OpView::Lines {
        area,
        lines: Seq::new(
            area.height as nat,
            |i: int|
                LineView { spans: line::no_spans().push(("│"@, style::plain())), style: style::plain() },
        ),
        style: style::plain().fg(style::border_color()).bg(style::panel_bg()),
    }
}

/// The column of bars between two panes.
pub fn separator_op(area: Rect) -> (op: DrawOp)
    ensures
        op@ == separator(area),
{
    let mut lines: Vec<StyledLine> = Vec::new();
    let ghost bar = LineView {
        spans: line::no_spans().push(("│"@, style::plain())),
        style: style::plain(),
    };
    for i in 0..area.height
        invariant
            bar == (LineView {
                spans: line::no_spans().push(("│"@, style::plain())),
                style: style::plain(),
            }),
            lines@.len() == i,
            forall|j: int| 0 <= j < i ==> (#[trigger] lines@[j])@ == bar,
    {
        let mut spans: Vec<Span> = Vec::new();
        proof {
            assert(line::spans_view(spans@) =~= line::no_spans());
        }
        line::push_span(&mut spans, "│", style::plain());
        lines.push(StyledLine { spans, style: style::plain() });
    }
    let op = DrawOp::Lines {
        area,
        lines,
        style: style::plain().fg(style::border_color()).bg(style::panel_bg()),
    };
    proof {
        assert(op@ =~= separator(area)) by {
            assert(lines_view(lines@) =~= separator(area)->lines);
        }
    }
    op
}

} // verus!
