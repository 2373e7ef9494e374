//! What is shown of the workspace says what it is to say.

use vstd::prelude::*;

use crate::fs_tree::VisibleNode;
use crate::screen::Terminal;
use crate::shell;
use crate::text;
use crate::ui::area::Rect;
use crate::ui::editor;
use crate::ui::editor::EditorPane;
use crate::ui::editor::MarksView;
use crate::ui::editor::PanePlan;
use crate::ui::editor::VisualRow;
use crate::ui::label;
use crate::ui::label::HoverTarget;
use crate::ui::line;
use crate::ui::line::Span;
use crate::ui::list;
use crate::ui::list::Explorer;
use crate::ui::list::Outline;
use crate::ui::list::OutlineItem;
use crate::ui::op::OpView;
use crate::ui::popup;
use crate::ui::popup::QuickPanel;
use crate::ui::popup::SymbolHover;
use crate::ui::status;
use crate::ui::status::Status;
use crate::ui::status::TerminalTitle;
use crate::ui::style;
use crate::ui::style::Color;
use crate::ui::style::Style;
use crate::ui::tabs;
use crate::ui::tabs::TabLabel;
use crate::ui::tabs::TabRow;
use crate::ui::tabs::TerminalLabel;
use crate::ui::terminal;
use crate::ui::terminal::TerminalPane;
use crate::ui::width;

verus! {

/// Whether a text stands somewhere in another.
pub open spec fn mentions(whole: Seq<char>, part: Seq<char>) -> bool {
    exists|at: int| #[trigger] stands_at(whole, part, at)
}

pub open spec fn stands_at(whole: Seq<char>, part: Seq<char>, at: int) -> bool {
    0 <= at && at + part.len() <= whole.len() && whole.subrange(at, at + part.len()) == part
}

broadcast proof fn lemma_mentions_sum(a: Seq<char>, b: Seq<char>, part: Seq<char>)
    ensures
        mentions(a, part) || mentions(b, part) ==> #[trigger] mentions(a + b, part),
{
    if mentions(a, part) {
        let at = choose|at: int| #[trigger] stands_at(a, part, at);
        assert((a + b).subrange(at, at + part.len()) =~= a.subrange(at, at + part.len()));
        assert(stands_at(a + b, part, at));
    }
    if mentions(b, part) {
        let at = choose|at: int| #[trigger] stands_at(b, part, at);
        let moved = at + a.len();
        assert((a + b).subrange(moved, moved + part.len()) =~= b.subrange(at, at + part.len()));
        assert(stands_at(a + b, part, moved));
    }
}

broadcast proof fn lemma_mentions_itself(part: Seq<char>)
    ensures
        #[trigger] mentions(part, part),
{
    assert(part.subrange(0, part.len() as int) =~= part);
    assert(stands_at(part, part, 0));
}

/// A size is given in bytes, or in units of 1024 or of 1048576 bytes, the largest of
/// which there is one, rounded down.
pub proof fn sizes_are_rounded_down(size: u64, n: nat)
    ensures
        size < 1024 ==> label::size_text(size) == text::decimal(size as nat) + seq!['B'],
        1024 <= size < 1048576 && n * 1024 <= size < (n + 1) * 1024 ==> label::size_text(size)
            == text::decimal(n) + seq!['K'],
        1048576 <= size && n * 1048576 <= size < (n + 1) * 1048576 ==> label::size_text(size)
            == text::decimal(n) + seq!['M'],
{
    reveal_strlit("B");
    reveal_strlit("K");
    reveal_strlit("M");
    assert("B"@ =~= seq!['B']);
    assert("K"@ =~= seq!['K']);
    assert("M"@ =~= seq!['M']);
    if 1024 <= size < 1048576 && n * 1024 <= size < (n + 1) * 1024 {
        assert(size / 1024 == n) by (nonlinear_arith)
            requires
                n * 1024 <= size < (n + 1) * 1024,
        ;
    }
    if 1048576 <= size && n * 1048576 <= size < (n + 1) * 1048576 {
        assert(size / 1048576 == n) by (nonlinear_arith)
            requires
                n * 1048576 <= size < (n + 1) * 1048576,
        ;
    }
}

/// Behind a file stands its size, behind it the mark of its change, and behind that
/// that it is read-only; behind a directory the last two alone.
pub proof fn rows_end_with_size_change_and_protection(
    is_dir: bool,
    size: Option<u64>,
    readonly: bool,
    git_marker: Option<Seq<char>>,
)
    ensures
        ({
            let protected = if readonly {
                seq![' ', 'r', 'o']
            } else {
                Seq::empty()
            };
            let changed = match git_marker {
                Some(marker) => seq![' '] + marker,
                None => Seq::empty(),
            };
            let sized = match size {
                Some(n) => seq![' '] + label::size_text(n),
                None => seq![' ', '?'],
            };
            label::node_suffix(is_dir, size, readonly, git_marker) == if is_dir {
                changed + protected
            } else {
                sized + changed + protected
            }
        }),
{
    reveal_strlit(" ro");
    reveal_strlit(" ");
    reveal_strlit("?");
    assert(" ro"@ =~= seq![' ', 'r', 'o']);
    assert(" "@ =~= seq![' ']);
    assert("?"@ =~= seq!['?']);
    assert(seq![' '] + seq!['?'] =~= seq![' ', '?']);
}

/// A row of the explorer begins with a star where it is selected, goes in by two
/// columns for each directory above it, tells an expanded directory by a minus and a
/// collapsed one by a plus, and then names the node.
pub proof fn rows_tell_depth_kind_and_name(node: VisibleNode, multi_selected: bool)
    ensures
        ({
            let row = list::node_prefix(node, multi_selected);
            let sign = 1 + 2 * node.depth;
            &&& row.len() == sign + 2 + node.name@.len()
            &&& row[0] == if multi_selected {
                '*'
            } else {
                ' '
            }
            &&& forall|i: int| 1 <= i < sign ==> #[trigger] row[i] == ' '
            &&& row[sign] == if !node.is_dir {
                ' '
            } else if node.expanded {
                '-'
            } else {
                '+'
            }
            &&& row[sign + 1] == ' '
            &&& row.skip(sign + 2) == node.name@
        }),
{
    reveal_strlit("*");
    reveal_strlit(" ");
    reveal_strlit("-");
    reveal_strlit("+");
    let row = list::node_prefix(node, multi_selected);
    let sign = 1 + 2 * node.depth;
    assert(row.skip(sign + 2) =~= node.name@);
}

/// A text is cut to the longest start that fits: its characters take no more columns
/// than there are, each at least one, and with the next character they would.
pub proof fn cut_texts_are_as_long_as_fits(cut: Seq<char>, room: nat)
    ensures
        ({
            let out = width::truncated(cut, room as int);
            let widths = width::char_widths(cut);
            let n = out.len() as int;
            &&& n <= cut.len()
            &&& out == cut.take(n)
            &&& width::columns(widths, n) <= room
            &&& n < cut.len() ==> width::columns(widths, n) + (if width::display_width(
                seq![cut[n]],
            ) == 0 {
                1int
            } else {
                width::display_width(seq![cut[n]]) as int
            }) > room
        }),
        width::columns(width::char_widths(cut), 0) == 0,
        forall|n: int|
            0 <= n < cut.len() ==> #[trigger] width::columns(width::char_widths(cut), n + 1)
                == width::columns(width::char_widths(cut), n) + (if width::display_width(
                seq![cut[n]],
            ) == 0 {
                1int
            } else {
                width::display_width(seq![cut[n]]) as int
            }),
{
    width::fitting_is_longest(width::char_widths(cut), room);
}

/// Two texts in a row of columns: where both fit, the first stands at the left end
/// and the second at the right end, with spaces between them; where they do not, the
/// first is cut for the second, which loses the blanks before it; and where there is
/// no room for the second, the first is shown alone.
pub proof fn texts_stand_at_both_ends(
    prefix: Seq<char>,
    prefix_width: nat,
    suffix: Seq<char>,
    suffix_width: nat,
    room: nat,
)
    requires
        room > 0,
    ensures
        ({
            let out = width::fitted(
                prefix,
                prefix_width as int,
                suffix,
                suffix_width as int,
                room as int,
            );
            &&& suffix.len() > 0 && suffix_width + 1 < room && prefix_width + suffix_width < room
                ==> {
                let gap = room - prefix_width - suffix_width;
                &&& gap > 0
                &&& out.len() == prefix.len() + gap + suffix.len()
                &&& out.take(prefix.len() as int) == prefix
                &&& forall|i: int|
                    prefix.len() <= i < prefix.len() + gap ==> #[trigger] out[i] == ' '
                &&& out.skip(prefix.len() + gap) == suffix
            }
            &&& suffix.len() > 0 && suffix_width + 1 < room && prefix_width + suffix_width >= room
                ==> out == width::truncated(prefix, room - suffix_width - 1) + seq![' ']
                + text::trim_start(suffix)
            &&& suffix.len() == 0 || suffix_width + 1 >= room ==> out == width::truncated(
                prefix,
                room as int,
            )
        }),
{
    reveal_strlit(" ");
    assert(" "@ =~= seq![' ']);
    let out = width::fitted(
        prefix,
        prefix_width as int,
        suffix,
        suffix_width as int,
        room as int,
    );
    if suffix.len() > 0 && suffix_width + 1 < room && prefix_width + suffix_width < room {
        let gap = room - prefix_width - suffix_width;
        assert(out.take(prefix.len() as int) =~= prefix);
        assert(out.skip(prefix.len() + gap) =~= suffix);
    }
}

/// A list shows the rows from the one that it is scrolled to, as long as that fills
/// it, and all rows where they fit.
pub proof fn lists_start_where_they_are_scrolled_to(len: nat, height: nat, scroll: nat)
    ensures
        height > 0 && scroll + height <= len ==> list::first_row(len, height, scroll) == scroll,
        height > 0 && len <= height ==> list::first_row(len, height, scroll) == 0,
        height > 0 && len > height && scroll + height > len ==> list::first_row(len, height, scroll)
            + height == len,
{
}

/// The explorer draws a row for each node in view, one below the other within its
/// border, each with its own text, and says which node stands where.
pub proof fn explorer_rows_stand_below_each_other(explorer: Explorer, area: Rect, k: int)
    requires
        area.wf(),
        area.width >= 2,
        area.height >= 2,
        0 <= k < list::shown_rows(
            explorer.rows@.len(),
            (area.height - 2) as nat,
            explorer.scroll as nat,
        ),
        explorer.rows@.len() <= usize::MAX,
    ensures
        ({
            let view = list::explorer_view(explorer, area);
            let first = list::first_row(
                explorer.rows@.len(),
                (area.height - 2) as nat,
                explorer.scroll as nat,
            ) as int;
            let place = Rect {
                x: (area.x + 1) as u16,
                y: (area.y + 1 + k) as u16,
                width: (area.width - 2) as u16,
                height: 1,
            };
            let selected = explorer.focused && explorer.selected == first + k;
            &&& view.rows[k] == (place, (first + k) as usize)
            &&& view.ops[1 + k] == (OpView::Label {
                area: place,
                text: list::explorer_row_text(explorer.rows@[first + k], area.width - 2),
                style: style::explorer_row_style(
                    selected,
                    explorer.hover == HoverTarget::ExplorerRow((first + k) as usize),
                    explorer.rows@[first + k].multi_selected,
                    explorer.drop_target is Some && explorer.drop_target->0 == first + k,
                ),
            })
            &&& view.scroll == first
            &&& view.ops.len() == 1 + view.rows.len()
        }),
{
}

/// A row of the explorer shows the node: its prefix at the left end, and its size and
/// marks at the right end.
pub proof fn explorer_rows_show_the_node(row: list::ExplorerRow, room: nat)
    requires
        room > 0,
    ensures
        ({
            let prefix = list::node_prefix(row.node, row.multi_selected);
            let suffix = label::node_suffix(
                row.node.is_dir,
                row.node.size,
                row.node.readonly,
                text::maybe(row.git_marker),
            );
            list::explorer_row_text(row, room as int) == width::fitted(
                prefix,
                width::display_width(prefix) as int,
                suffix,
                width::display_width(suffix) as int,
                room as int,
            )
        }),
{
}

/// A row of the outline names the symbol, says more of it, and tells its line,
/// counted from one, at the right end.
pub proof fn outline_rows_name_symbol_and_line(item: OutlineItem, room: nat)
    requires
        room > 0,
    ensures
        ({
            let prefix = seq![' ', ' '] + item.label@ + seq![' ', ' '] + item.detail@;
            let suffix = match item.line {
                Some(line) => seq![' '] + text::decimal((line + 1) as nat),
                None => Seq::empty(),
            };
            list::outline_row_text(item, room as int) == width::fitted(
                prefix,
                width::display_width(prefix) as int,
                suffix,
                width::display_width(suffix) as int,
                room as int,
            )
        }),
{
    reveal_strlit("  ");
    reveal_strlit(" ");
    assert("  "@ =~= seq![' ', ' ']);
    assert(" "@ =~= seq![' ']);
}

/// The outline marks the selected symbol, and no row behind its last one.
pub proof fn outline_selection_is_a_symbol(outline: Outline)
    ensures
        outline.items@.len() > 0 ==> list::outline_selection(outline) < outline.items@.len(),
        outline.selected < outline.items@.len() ==> list::outline_selection(outline)
            == outline.selected,
        0 < outline.items@.len() <= outline.selected ==> list::outline_selection(outline)
            == outline.items@.len() - 1,
{
}

/// The quick panel draws a row for each item in view, one below the other within its
/// border, with its label, what more is said of it, and its preview; the selected one
/// stands out.
pub proof fn quick_rows_show_their_items(panel: QuickPanel, area: Rect, k: int)
    requires
        panel.items@.len() > 0,
        panel.items@.len() <= usize::MAX,
        0 <= k < popup::quick_view(panel, area).rows.len(),
    ensures
        ({
            let inner = popup::quick_rect(area).within_border();
            let view = popup::quick_view(panel, area);
            let i = view.scroll + k;
            let item = panel.items@[i];
            let shown = item.label@ + seq![' ', ' '] + item.detail@ + (match item.preview {
                Some(preview) => seq![' ', ' '] + preview@,
                None => Seq::empty(),
            });
            &&& i < panel.items@.len()
            &&& view.rows[k].1 == i
            &&& view.rows[k].0.y == (inner.y + k) as u16
            &&& view.rows[k].0.x == inner.x && view.rows[k].0.width == inner.width
            &&& view.ops[2 + k] == (OpView::Label {
                area: view.rows[k].0,
                text: shown,
                style: style::row_style(
                    panel.selected == i,
                    panel.hover == HoverTarget::QuickRow(i as usize),
                ),
            })
        }),
{
    reveal_strlit("  ");
    assert("  "@ =~= seq![' ', ' ']);
}

/// The popup over a symbol names it, counts its definitions and uses, says where it
/// is defined, counted from one, and shows the line there.
pub proof fn hovers_tell_of_the_symbol(hover: SymbolHover, root: crate::path::FsPath)
    ensures
        ({
            let rows = popup::hover_rows(hover, root);
            &&& rows.len() >= 2
            &&& mentions(rows[0], hover.symbol@)
            &&& mentions(
                rows[0],
                "  defs:"@ + text::decimal(hover.definition_count as nat) + " refs:"@
                    + text::decimal(hover.reference_count as nat),
            )
            &&& hover.definition is Some ==> {
                let place = hover.definition->0;
                &&& mentions(
                    rows[1],
                    label::relative_text(
                        place.path@,
                        root@,
                        place.display@,
                        place.platform,
                    ) + ":"@ + text::decimal((place.line + 1) as nat) + ":"@ + text::decimal(
                        (place.col + 1) as nat,
                    ),
                )
            }
            &&& hover.definition_detail is Some ==> mentions(
                rows[1],
                width::truncated(hover.definition_detail->0@, 72),
            )
            &&& hover.definition_preview is Some && width::truncated(
                hover.definition_preview->0@,
                72,
            ).len() > 0 ==> rows.len() == 3 && rows[2] == width::truncated(
                hover.definition_preview->0@,
                72,
            )
        }),
{
    broadcast use lemma_mentions_sum, lemma_mentions_itself;

    let rows = popup::hover_rows(hover, root);
    let counts = "  defs:"@ + text::decimal(hover.definition_count as nat) + " refs:"@
        + text::decimal(hover.reference_count as nat);
    assert(rows[0] =~= hover.symbol@ + counts);
    if let Some(place) = hover.definition {
        let shown = label::relative_text(place.path@, root@, place.display@, place.platform)
            + ":"@ + text::decimal((place.line + 1) as nat) + ":"@ + text::decimal(
            (place.col + 1) as nat,
        );
        let line = popup::definition_text(hover.definition, root);
        assert(line =~= "def "@ + shown);
        assert(mentions(line, shown));
    }
    if let Some(detail) = hover.definition_detail {
        let shown = width::truncated(detail@, 72);
        if shown.len() == 0 {
            assert(rows[1].subrange(0, 0) =~= shown);
            assert(stands_at(rows[1], shown, 0));
        }
    }
}

/// The tab of a file names it, with a star where it has changes that are not saved,
/// that it is read-only, and a mark where the file changed on disk or is gone.
pub proof fn tabs_name_their_files(tab: TabLabel)
    ensures
        tabs::tab_label(tab) == seq![' '] + tab.title@ + (if tab.dirty {
            seq!['*']
        } else {
            Seq::empty()
        }) + (if tab.read_only {
            seq![' ', 'r', 'o']
        } else {
            Seq::empty()
        }) + (match tab.external {
            tabs::ExternalFileState::Clean => Seq::empty(),
            tabs::ExternalFileState::Modified => seq!['!'],
            tabs::ExternalFileState::Deleted => seq!['?'],
        }) + seq![' ', 'x', ' '],
{
    reveal_strlit(" ");
    reveal_strlit("*");
    reveal_strlit(" ro");
    reveal_strlit("!");
    reveal_strlit("?");
    reveal_strlit(" x ");
    assert(" "@ =~= seq![' ']);
    assert("*"@ =~= seq!['*']);
    assert(" ro"@ =~= seq![' ', 'r', 'o']);
    assert("!"@ =~= seq!['!']);
    assert("?"@ =~= seq!['?']);
    assert(" x "@ =~= seq![' ', 'x', ' ']);
}

/// The tab of a terminal names it, with an exclamation mark where its program ended.
pub proof fn tabs_name_their_terminals(terminal: TerminalLabel)
    ensures
        tabs::terminal_label(terminal) == seq![' '] + terminal.title@ + (if terminal.exited {
            seq!['!']
        } else {
            Seq::empty()
        }) + seq![' ', 'x', ' '],
{
    reveal_strlit(" ");
    reveal_strlit("!");
    reveal_strlit(" x ");
    assert(" "@ =~= seq![' ']);
    assert("!"@ =~= seq!['!']);
    assert(" x "@ =~= seq![' ', 'x', ' ']);
}

/// Each tab is drawn where it stands, with its own label; the active one is bold and
/// no other one is.
pub proof fn tabs_are_drawn_in_their_places(row: TabRow, area: Rect, widths: Seq<usize>, i: int)
    requires
        widths.len() == row.tabs@.len(),
        0 <= i < tabs::tab_rects(area, tabs::editor_tab_sizes(), widths).len(),
        row.tabs@.len() <= usize::MAX,
    ensures
        ({
            let rects = tabs::tab_rects(area, tabs::editor_tab_sizes(), widths);
            let op = tabs::tab_ops(row, area, widths)[1 + i];
            &&& op is Label
            &&& op->Label_area == rects[i]
            &&& op->Label_text == tabs::tab_label(row.tabs@[i])
            &&& op->Label_style.bold <==> row.active is Some && row.active->0 == i
            &&& tabs::numbered(rects)[i] == (rects[i], i as usize)
            &&& tabs::tab_ops(row, area, widths).len() == 1 + rects.len()
        }),
{
}

/// The tabs are at least 8 and at most 24 columns wide, as wide as their labels in
/// between, and stand side by side from the left end of the row on, as far as there
/// is room.
pub proof fn tabs_are_as_wide_as_their_labels(area: Rect, widths: Seq<usize>, i: int)
    requires
        area.wf(),
        0 <= i < widths.len(),
    ensures
        ({
            let sizes = tabs::editor_tab_sizes();
            let start = tabs::tab_start(area, sizes, widths, i);
            let next = tabs::tab_start(area, sizes, widths, i + 1);
            let wanted: int = if widths[i] < 8 {
                8
            } else if widths[i] > 24 {
                24
            } else {
                widths[i] as int
            };
            &&& tabs::tab_start(area, sizes, widths, 0) == area.x
            &&& start + wanted <= area.x + area.width ==> next == start + wanted
            &&& start + wanted > area.x + area.width ==> next == area.x + area.width
        }),
{
}

/// The button that closes a tab takes its last three columns.
pub proof fn close_buttons_stand_at_the_right_end(tab: Rect)
    requires
        tab.wf(),
        tab.width >= 3,
        tab.height == 1,
    ensures
        tabs::close_rect(tab).x + 3 == tab.x + tab.width,
        tabs::close_rect(tab).width == 3,
        tabs::close_rect(tab).y == tab.y,
        tabs::close_rect(tab).height == 1,
{
}

/// The status line asks for what the prompt wants, and shows the answer as far as it
/// is typed.
pub proof fn prompts_show_the_answer(status: Status)
    requires
        status.prompt is Some,
    ensures
        status::status_line(status) == seq![' '] + label::prompt_text(status.prompt->0.kind)
            + seq![':', ' '] + status.prompt->0.input@ + seq![' '],
{
    reveal_strlit(" ");
    reveal_strlit(": ");
    assert(" "@ =~= seq![' ']);
    assert(": "@ =~= seq![':', ' ']);
}

/// The description of an open file begins with its name, and tells that there are
/// changes that are not saved, and where the cursor is, counted from one.
pub proof fn files_are_named_with_the_place_of_the_cursor(tab: status::TabStatus)
    ensures
        ({
            let line = status::tab_text(tab);
            let name = if tab.untitled {
                tab.title@
            } else {
                tab.path@
            };
            let head = if tab.dirty {
                name + " *"@
            } else {
                name
            };
            &&& head.len() <= line.len()
            &&& line.take(head.len() as int) == head
            &&& mentions(
                line,
                "  Ln "@ + text::decimal((tab.cursor_line + 1) as nat) + ", Col "@
                    + text::decimal((tab.cursor_col + 1) as nat),
            )
        }),
{
    let line = status::tab_text(tab);
    let name = if tab.untitled {
        tab.title@
    } else {
        tab.path@
    };
    let head = if tab.dirty {
        name + " *"@
    } else {
        name
    };
    let read_only = if tab.read_only {
        "  ro"@
    } else {
        status::nothing()
    };
    let place = "  Ln "@ + text::decimal((tab.cursor_line + 1) as nat) + ", Col "@ + text::decimal(
        (tab.cursor_col + 1) as nat,
    );
    let start = head + read_only;
    lemma_tab_text_begins(tab);
    let at = start.len() as int;
    let begin = start + place;
    assert(begin.subrange(at, at + place.len()) =~= place);
    assert(line.subrange(at, at + place.len()) =~= begin.subrange(at, at + place.len()));
    assert(stands_at(line, place, at));
    assert(line.take(head.len() as int) =~= begin.take(head.len() as int));
    assert(begin.take(head.len() as int) =~= head);
}

/// A sum begins with what its first part begins with.
broadcast proof fn lemma_begins_sum(a: Seq<char>, b: Seq<char>, head: Seq<char>)
    requires
        head.is_prefix_of(a),
    ensures
        #[trigger] head.is_prefix_of(a + b),
{
    assert((a + b).subrange(0, head.len() as int) =~= a.subrange(0, head.len() as int));
}

proof fn lemma_tab_text_begins(tab: status::TabStatus)
    ensures
        ({
            let name = if tab.untitled {
                tab.title@
            } else {
                tab.path@
            };
            let head = if tab.dirty {
                name + " *"@
            } else {
                name
            };
            let read_only = if tab.read_only {
                "  ro"@
            } else {
                status::nothing()
            };
            let place = "  Ln "@ + text::decimal((tab.cursor_line + 1) as nat) + ", Col "@
                + text::decimal((tab.cursor_col + 1) as nat);
            (head + read_only + place).is_prefix_of(status::tab_text(tab))
        }),
{
    broadcast use lemma_begins_sum;

    let name = if tab.untitled {
        tab.title@
    } else {
        tab.path@
    };
    let head = if tab.dirty {
        name + " *"@
    } else {
        name
    };
    let read_only = if tab.read_only {
        "  ro"@
    } else {
        status::nothing()
    };
    let row = text::decimal((tab.cursor_line + 1) as nat);
    let column = text::decimal((tab.cursor_col + 1) as nat);
    let whole = head + read_only + "  Ln "@ + row + ", Col "@ + column;
    assert(name + status::nothing() =~= name);
    assert(whole =~= head + read_only + ("  Ln "@ + row + ", Col "@ + column));
    assert(whole.is_prefix_of(whole)) by {
        assert(whole.subrange(0, whole.len() as int) =~= whole);
    }
}

/// The description of an open file tells that it is read-only, wrapped or changed on
/// disk, and what is selected.
pub proof fn files_are_described_with_what_is_selected(tab: status::TabStatus)
    ensures
        ({
            let line = status::tab_text(tab);
            &&& tab.read_only ==> mentions(line, "  ro"@)
            &&& tab.word_wrap ==> mentions(line, "  Wrap"@)
            &&& tab.disk is Some ==> mentions(line, "  Disk "@ + tab.disk->0@)
            &&& tab.selected_text is Some && tab.selection_count <= 1 ==> mentions(
                line,
                "  Sel "@ + text::decimal(tab.selected_text->0@.len()),
            )
            &&& tab.selected_text is Some && tab.selection_count > 1 ==> mentions(
                line,
                "  Sel "@ + text::decimal(tab.selection_count as nat) + "x/"@ + text::decimal(
                    tab.selected_text->0@.len(),
                ) + " chars"@,
            )
            &&& tab.selected_text is None && tab.selection_count > 1 ==> mentions(
                line,
                "  Cursors "@ + text::decimal(tab.selection_count as nat),
            )
        }),
{
    broadcast use lemma_mentions_sum, lemma_mentions_itself;

}

/// The description of an open file tells how often the text that is searched for is
/// found, how many problems, uses and bookmarks there are, and the problem of the line.
pub proof fn files_are_described_with_what_is_found(tab: status::TabStatus)
    ensures
        ({
            let line = status::tab_text(tab);
            &&& tab.search_count is Some ==> mentions(
                line,
                "  Find "@ + text::decimal(tab.search_count->0 as nat),
            )
            &&& tab.problem_count > 0 ==> mentions(
                line,
                "  Problems "@ + text::decimal(tab.problem_count as nat),
            )
            &&& tab.highlight_count > 0 ==> mentions(
                line,
                "  Highlights "@ + text::decimal(tab.highlight_count as nat),
            )
            &&& tab.bookmark_count > 0 ==> mentions(
                line,
                "  Bookmarks "@ + text::decimal(tab.bookmark_count as nat),
            )
            &&& tab.line_problem is Some ==> mentions(
                line,
                "  "@ + tab.line_problem->0.severity@ + ": "@ + width::truncated(
                    tab.line_problem->0.message@,
                    72,
                ),
            )
        }),
{
    broadcast use lemma_mentions_sum, lemma_mentions_itself;

}

/// The status line describes the open file, and tells the branch, the message and the
/// last error.
pub proof fn status_tells_file_message_and_error(status: Status)
    requires
        status.prompt is None,
    ensures
        ({
            let line = status::status_line(status);
            &&& line[0] == ' '
            &&& status.tab is Some ==> stands_at(line, status::tab_text(status.tab->0), 1)
            &&& status.tab is None ==> stands_at(line, "no file open"@, 1)
            &&& status.branch is Some ==> mentions(line, "  branch:"@ + status.branch->0@)
            &&& status.message is Some ==> mentions(line, "  "@ + status.message->0@)
            &&& status.last_error is Some ==> mentions(line, "  error: "@ + status.last_error->0@)
        }),
{
    broadcast use lemma_mentions_sum, lemma_mentions_itself;

    reveal_strlit(" ");
    let line = status::status_line(status);
    let active = match status.tab {
        Some(tab) => status::tab_text(tab),
        None => "no file open"@,
    };
    assert(line.subrange(1, 1 + active.len() as int) =~= active);
}

/// The status line counts the tabs, says what the mouse is over, and tells of the
/// symbol under it and of what is in the clipboards.
pub proof fn status_tells_mouse_symbol_and_clipboards(status: Status)
    requires
        status.prompt is None,
    ensures
        ({
            let line = status::status_line(status);
            &&& mentions(line, text::decimal(status.tab_count as nat))
            &&& mentions(line, label::hover_text(status.hover))
            &&& status.symbol is Some ==> mentions(
                line,
                "  symbol:"@ + status.symbol->0.symbol@ + " defs:"@ + text::decimal(
                    status.symbol->0.definition_count as nat,
                ) + " refs:"@ + text::decimal(status.symbol->0.reference_count as nat),
            )
            &&& status.editor_clipboard is Some ==> mentions(
                line,
                "  editor-clip:"@ + text::decimal(status.editor_clipboard->0@.len()) + " chars"@,
            )
            &&& status.clipboard is Some ==> {
                let clipboard = status.clipboard->0;
                let action = if clipboard.action is Copy {
                    "copy"@
                } else {
                    "cut"@
                };
                mentions(
                    line,
                    "  clipboard:"@ + action + " "@ + (if clipboard.count == 1 {
                        clipboard.first_name@
                    } else {
                        text::decimal(clipboard.count as nat) + " items"@
                    }),
                )
            }
        }),
{
    broadcast use lemma_mentions_sum, lemma_mentions_itself;

}

/// The title of the terminal names it, tells its directory, whether its program runs
/// and how it ended, how far it is scrolled back, and which of the found places is
/// selected.
pub proof fn terminal_titles_tell_of_the_terminal(title: TerminalTitle)
    ensures
        ({
            let line = status::terminal_title_line(title);
            &&& mentions(line, title.title@)
            &&& mentions(line, "  cwd:"@ + title.cwd@)
            &&& !title.exited ==> mentions(line, "  live"@)
            &&& title.exited && title.exit_label is Some ==> mentions(
                line,
                "  "@ + title.exit_label->0@,
            )
            &&& title.exited && title.exit_label is None ==> mentions(line, "  exited"@)
            &&& title.scrollback > 0 ==> mentions(
                line,
                "  scroll:"@ + text::decimal(title.scrollback as nat),
            )
            &&& title.search matches Some((selected, count)) ==> mentions(
                line,
                "  find:"@ + text::decimal(selected as nat) + "/"@ + text::decimal(count as nat),
            )
            &&& title.split ==> mentions(line, "  split"@)
        }),
{
    broadcast use lemma_mentions_sum, lemma_mentions_itself;

    reveal_strlit("  ");
    reveal_strlit("live");
    reveal_strlit("exited");
    reveal_strlit("  live");
    reveal_strlit("  exited");
    let line = status::terminal_title_line(title);
    let state = if title.exited {
        match title.exit_label {
            Some(exit_label) => exit_label@,
            None => "exited"@,
        }
    } else {
        "live"@
    };
    let place = "  cwd:"@ + title.cwd@;
    let stated = "  "@ + state;
    let head = " Terminal  "@ + title.title@;
    let rest = line.skip((head + place + stated).len() as int);
    assert(line =~= head + place + stated + rest);
    assert(!title.exited ==> stated =~= "  live"@);
    assert(title.exited && title.exit_label is None ==> stated =~= "  exited"@);
}

/// The columns left of the text of a line tell whether it is bookmarked, its number
/// counted from one at the right end of its columns, and what is wrong with it or
/// whether it is folded. Where a line goes on, a mark says so and there is no number.
pub proof fn gutters_tell_the_number_of_the_line(row: VisualRow, marks: MarksView, room: nat)
    requires
        text::decimal((row.line + 1) as nat).len() <= room,
    ensures
        ({
            let spans = editor::gutter(row, marks, room);
            let digits = text::decimal((row.line + 1) as nat);
            let pad = room - digits.len();
            &&& spans.len() == 3
            &&& spans[0].0 == if marks.bookmarked && !row.continuation {
                seq!['B']
            } else {
                seq![' ']
            }
            &&& spans[1].0.len() == room + 1
            &&& spans[1].0[room as int] == ' '
            &&& !row.continuation ==> {
                &&& forall|i: int| 0 <= i < pad ==> #[trigger] spans[1].0[i] == ' '
                &&& spans[1].0.subrange(pad as int, room as int) == digits
            }
            &&& row.continuation ==> forall|i: int| 0 <= i < room ==> #[trigger] spans[1].0[i] == ' '
            &&& row.continuation ==> spans[2].0 == seq!['>']
            &&& !row.continuation && marks.problem is Some ==> spans[2].0 == style::marker_text(
                marks.problem->0,
            )
            &&& !row.continuation && marks.problem is None && marks.folded ==> spans[2].0 == seq!['+']
            &&& !row.continuation && marks.problem is None && !marks.folded && marks.fold_end is Some
                ==> spans[2].0 == seq!['-']
            &&& !row.continuation && marks.problem is None && !marks.folded && marks.fold_end is None
                ==> spans[2].0 == seq![' ']
            &&& marks.problem is Some ==> spans[1].1 == style::problem_gutter_style(
                marks.problem->0,
            ) && spans[2].1 == spans[1].1
        }),
{
    reveal_strlit("B");
    reveal_strlit(" ");
    reveal_strlit(">");
    reveal_strlit("+");
    reveal_strlit("-");
    assert("B"@ =~= seq!['B']);
    assert(" "@ =~= seq![' ']);
    assert(">"@ =~= seq!['>']);
    assert("+"@ =~= seq!['+']);
    assert("-"@ =~= seq!['-']);
    let spans = editor::gutter(row, marks, room);
    let digits = text::decimal((row.line + 1) as nat);
    let pad = room - digits.len();
    if !row.continuation {
        assert(spans[1].0.subrange(pad as int, room as int) =~= digits);
    }
}

proof fn lemma_digits_grow(n: nat, m: nat)
    requires
        n <= m,
    ensures
        text::decimal(n).len() <= text::decimal(m).len(),
    decreases m,
{
    text::decimals_are_written_digit_by_digit(n);
    text::decimals_are_written_digit_by_digit(m);
    if n >= 10 {
        lemma_digits_grow(n / 10, m / 10);
    }
}

/// There is room for the number of every line, three columns at least, and no more
/// than the last line needs.
pub proof fn line_numbers_have_room(line_count: nat, line: nat)
    requires
        line < line_count,
    ensures
        text::decimal(line + 1).len() <= editor::number_width(line_count),
        editor::number_width(line_count) >= 3,
        editor::number_width(line_count) == 3 || editor::number_width(line_count)
            == text::decimal(line_count).len(),
{
    lemma_digits_grow(line + 1, line_count);
}

/// The rows in view belong to the lines from the first to the last one that they show.
pub proof fn rows_belong_to_the_lines_in_view(rows: Seq<VisualRow>)
    requires
        rows.len() > 0,
    ensures
        ({
            let (first, end) = editor::lines_of_rows(rows);
            &&& forall|i: int| 0 <= i < rows.len() ==> first <= (#[trigger] rows[i]).line < end
            &&& exists|i: int| 0 <= i < rows.len() && (#[trigger] rows[i]).line == first
            &&& exists|i: int| 0 <= i < rows.len() && (#[trigger] rows[i]).line + 1 == end
        }),
    decreases rows.len(),
{
    let (first, end) = editor::lines_of_rows(rows);
    let last = rows[rows.len() - 1];
    if rows.len() == 1 {
        assert(rows[0].line == first && rows[0].line + 1 == end);
    } else {
        let head = rows.drop_last();
        rows_belong_to_the_lines_in_view(head);
        let (start, stop) = editor::lines_of_rows(head);
        assert forall|i: int| 0 <= i < rows.len() implies first <= (#[trigger] rows[i]).line
            < end by {
            if i < head.len() {
                assert(head[i] == rows[i]);
            }
        }
        let a = choose|i: int| 0 <= i < head.len() && (#[trigger] head[i]).line == start;
        let b = choose|i: int| 0 <= i < head.len() && (#[trigger] head[i]).line + 1 == stop;
        assert(rows[a] == head[a] && rows[b] == head[b]);
        if last.line < start {
            assert(rows[rows.len() - 1].line == first);
        } else {
            assert(rows[a].line == first);
        }
        if last.line + 1 > stop {
            assert(rows[rows.len() - 1].line + 1 == end);
        } else {
            assert(rows[b].line + 1 == end);
        }
    }
}

/// Text can be scrolled to the left until the longest line ends in view, and no
/// further; where all lines fit, not at all.
pub proof fn text_is_scrolled_no_further_than_its_end(lines: Seq<String>, columns: nat, i: int)
    requires
        columns > 0,
        0 <= i < lines.len(),
    ensures
        lines[i]@.len() <= editor::scroll_limit(lines, columns) + columns,
        editor::scroll_limit(lines, columns) > 0 ==> exists|k: int|
            0 <= k < lines.len() && (#[trigger] lines[k])@.len() == editor::scroll_limit(
                lines,
                columns,
            ) + columns,
{
    lemma_longest(lines);
    assert(lines[i]@.len() <= editor::longest(lines));
}

proof fn lemma_longest(lines: Seq<String>)
    ensures
        forall|i: int| 0 <= i < lines.len() ==> (#[trigger] lines[i])@.len() <= editor::longest(lines),
        editor::longest(lines) > 0 ==> exists|k: int|
            0 <= k < lines.len() && (#[trigger] lines[k])@.len() == editor::longest(lines),
    decreases lines.len(),
{
    if lines.len() > 0 {
        let head = lines.drop_last();
        lemma_longest(head);
        let last = lines[lines.len() - 1];
        assert forall|i: int| 0 <= i < lines.len() implies (#[trigger] lines[i])@.len()
            <= editor::longest(lines) by {
            if i < head.len() {
                assert(head[i] == lines[i]);
            }
        }
        if last@.len() <= editor::longest(head) && editor::longest(head) > 0 {
            let k = choose|k: int|
                0 <= k < head.len() && (#[trigger] head[k])@.len() == editor::longest(head);
            assert(lines[k] == head[k]);
        } else {
            assert(lines[lines.len() - 1]@.len() == last@.len());
        }
    }
}

/// A row of a pane shows, behind its gutter, the part of its line that is in view:
/// from where the line is scrolled to, or from where it is wrapped, as far as there is
/// room, each character as it is shown in the line.
pub proof fn rows_show_the_part_in_view(
    pane: EditorPane,
    plan: PanePlan,
    highlighted: Seq<Vec<Span>>,
    row: VisualRow,
)
    ensures
        ({
            let shown = editor::row_line(pane, plan, highlighted, row);
            let marks = pane.marks_of(row.line as int);
            let gutter = editor::gutter(row, marks, editor::number_width(pane.lines@.len()));
            let code = line::cells(
                editor::code_of(
                    pane,
                    row.line,
                    editor::colors_of(pane, plan, highlighted, row.line as int),
                ),
            );
            let start: int = if pane.word_wrap {
                row.start_col as int
            } else {
                plan.horizontal_scroll as int
            };
            let from = if start < code.len() {
                start
            } else {
                code.len() as int
            };
            let to = if start + plan.columns < code.len() {
                start + plan.columns
            } else {
                code.len() as int
            };
            &&& shown.spans.len() >= gutter.len()
            &&& shown.spans.take(gutter.len() as int) == gutter
            &&& line::cells(shown.spans.skip(gutter.len() as int)) == code.subrange(from, to)
        }),
{
    let marks = pane.marks_of(row.line as int);
    let gutter = editor::gutter(row, marks, editor::number_width(pane.lines@.len()));
    let code = editor::code_of(
        pane,
        row.line,
        editor::colors_of(pane, plan, highlighted, row.line as int),
    );
    let start: nat = if pane.word_wrap {
        row.start_col as nat
    } else {
        plan.horizontal_scroll as nat
    };
    line::cropping_keeps_the_window(code, start, plan.columns as nat);
    let shown = editor::row_line(pane, plan, highlighted, row);
    assert(shown.spans.take(gutter.len() as int) =~= gutter);
    assert(shown.spans.skip(gutter.len() as int) =~= line::cropped(
        code,
        start,
        plan.columns as nat,
    ));
}

/// A line of which anything is selected shows its selections. Else, in the pane that
/// takes the keys, one with a cursor shows its cursors. Else one in which the text
/// that is searched for stands shows where. Any other line shows its colors and where
/// the symbol under the cursor is used. A folded line says how many lines are folded
/// behind it.
pub proof fn lines_show_what_matters_most(
    pane: EditorPane,
    line: usize,
    colors: Seq<(Seq<char>, Style)>,
)
    requires
        line < pane.lines@.len(),
    ensures
        ({
            let shown = editor::code_of(pane, line, colors);
            let source = pane.lines@[line as int]@;
            let marks = pane.marks_of(line as int);
            let selected = line::selected_ranges(pane.selections@, line, source.len());
            let cursors = line::cursor_columns(pane.cursors@, line, source.len());
            let used = line::with_highlights(colors, marks.highlights);
            let folded = marks.folded && marks.fold_end is Some;
            let text = if folded {
                shown.take(shown.len() - 1)
            } else {
                shown
            };
            let at = if pane.focused && line == pane.cursor_line {
                Some(pane.cursor_col)
            } else {
                None
            };
            let found = if pane.needle is Some && pane.needle->0@.len() > 0 {
                line::with_search(source, pane.needle->0@, at)
            } else {
                None
            };
            &&& selected.len() > 0 ==> text == line::with_selection(source, selected)
            &&& selected.len() == 0 && pane.focused && cursors.len() > 0 ==> text
                == line::with_cursors(used, cursors)
            &&& selected.len() == 0 && !(pane.focused && cursors.len() > 0) && found is Some
                ==> text == found->0
            &&& selected.len() == 0 && !(pane.focused && cursors.len() > 0) && found is None
                ==> text == used
            &&& folded && marks.fold_end->0 >= line ==> shown.len() > 0 && shown.last().0
                == "  ... "@ + text::decimal((marks.fold_end->0 - line) as nat)
                + " folded line(s)"@
        }),
{
    let shown = editor::code_of(pane, line, colors);
    let marks = pane.marks_of(line as int);
    if marks.folded && marks.fold_end is Some {
        let source = pane.lines@[line as int]@;
        let unfolded = shown.drop_last();
        assert(shown.take(shown.len() - 1) =~= unfolded);
        assert(unfolded.push(shown.last()) =~= shown);
        lemma_unfolded(pane, line, colors);
    }
}

proof fn lemma_unfolded(pane: EditorPane, line: usize, colors: Seq<(Seq<char>, Style)>)
    requires
        line < pane.lines@.len(),
        pane.marks_of(line as int).folded,
        pane.marks_of(line as int).fold_end is Some,
    ensures
        ({
            let shown = editor::code_of(pane, line, colors);
            let source = pane.lines@[line as int]@;
            let marks = pane.marks_of(line as int);
            let selected = line::selected_ranges(pane.selections@, line, source.len());
            let cursors = line::cursor_columns(pane.cursors@, line, source.len());
            let used = line::with_highlights(colors, marks.highlights);
            let at = if pane.focused && line == pane.cursor_line {
                Some(pane.cursor_col)
            } else {
                None
            };
            let found = if pane.needle is Some && pane.needle->0@.len() > 0 {
                line::with_search(source, pane.needle->0@, at)
            } else {
                None
            };
            &&& shown.len() > 0
            &&& shown.drop_last() == if selected.len() > 0 {
                line::with_selection(source, selected)
            } else if pane.focused && cursors.len() > 0 {
                line::with_cursors(used, cursors)
            } else if found is Some {
                found->0
            } else {
                used
            }
        }),
{
    let shown = editor::code_of(pane, line, colors);
    let source = pane.lines@[line as int]@;
    let marks = pane.marks_of(line as int);
    let selected = line::selected_ranges(pane.selections@, line, source.len());
    let cursors = line::cursor_columns(pane.cursors@, line, source.len());
    let used = line::with_highlights(colors, marks.highlights);
    let at = if pane.focused && line == pane.cursor_line {
        Some(pane.cursor_col)
    } else {
        None
    };
    let found = if pane.needle is Some && pane.needle->0@.len() > 0 {
        line::with_search(source, pane.needle->0@, at)
    } else {
        None
    };
    let base = if selected.len() > 0 {
        line::with_selection(source, selected)
    } else if pane.focused && cursors.len() > 0 {
        line::with_cursors(used, cursors)
    } else if found is Some {
        found->0
    } else {
        used
    };
    assert(shown.drop_last() =~= base);
}

/// A pane draws the rows in view, one for each, from the first one on; and each line
/// has the colors that were found for it.
pub proof fn panes_draw_the_rows_in_view(
    pane: EditorPane,
    area: Rect,
    plan: PanePlan,
    highlighted: Seq<Vec<Span>>,
    k: int,
)
    requires
        plan.inner.width > 0,
        plan.inner.height > 0,
        0 <= k < plan.count,
    ensures
        ({
            let ops = editor::pane_ops(pane, area, plan, highlighted);
            &&& ops.len() == 2
            &&& ops[0] is Panel && ops[0]->Panel_area == area
            &&& ops[1] is Lines
            &&& ops[1]->Lines_area == plan.inner
            &&& ops[1]->lines.len() == plan.count
            &&& ops[1]->lines[k] == editor::row_line(
                pane,
                plan,
                highlighted,
                pane.rows@[plan.first + k],
            )
        }),
        forall|line: int|
            plan.first_line <= line < plan.first_line + highlighted.len()
                ==> #[trigger] editor::colors_of(pane, plan, highlighted, line)
                == line::spans_view(highlighted[line - plan.first_line]@),
{
}

/// A pane of the terminal draws a line for each row of the terminal, in its order, with
/// what is laid over it; and the cursor where the terminal has it, as far as that is
/// in the pane, only in the pane that takes the keys, and only where the terminal
/// shows it and is not scrolled back.
pub proof fn terminal_panes_draw_their_rows(
    terminal: Terminal,
    pane: TerminalPane,
    body: Rect,
    row: int,
)
    requires
        body.wf(),
        0 <= row < terminal.rows,
    ensures
        ({
            let ops = terminal::pane_ops(terminal, pane, body);
            let seen = pane.focused && pane.active && !terminal.hide_cursor && terminal.offset == 0;
            &&& ops[0] is Lines
            &&& ops[0]->Lines_area == body
            &&& ops[0]->lines.len() == terminal.rows
            &&& row < pane.overlays@.len() ==> ops[0]->lines[row].spans == line::shown_terminal_row(
                shell::styled_row(terminal, row as u16),
                pane.overlays@[row]@,
            )
            &&& row >= pane.overlays@.len() ==> ops[0]->lines[row].spans == line::shown_row(
                shell::styled_row(terminal, row as u16),
            )
            &&& ops.len() == if seen {
                2
            } else {
                1int
            }
            &&& seen && terminal.cursor.1 < body.width && terminal.cursor.0 < body.height ==> ops[1]
                == (OpView::Cursor {
                x: (body.x + terminal.cursor.1) as u16,
                y: (body.y + terminal.cursor.0) as u16,
            })
        }),
{
}

/// The line at the top of the screen names the workspace, what the sidebar shows, and the
/// panel that takes the keys.
pub proof fn titles_name_the_workspace(
    root: Seq<char>,
    sidebar: Seq<char>,
    focus: label::FocusPanel,
)
    ensures
        ({
            let line = status::title_line(root, sidebar, focus);
            &&& mentions(line, root)
            &&& mentions(line, "  sidebar:"@ + sidebar)
            &&& focus is Explorer ==> mentions(line, "  focus:"@ + "explorer"@)
            &&& focus is Editor ==> mentions(line, "  focus:"@ + "editor"@)
            &&& focus is Terminal ==> mentions(line, "  focus:"@ + "terminal"@)
        }),
{
    broadcast use lemma_mentions_sum, lemma_mentions_itself;

    let line = status::title_line(root, sidebar, focus);
    let side = "  sidebar:"@ + sidebar;
    let taken = "  focus:"@ + label::focus_text(focus);
    assert(line =~= " tscode  "@ + root + side + taken + " "@);
}

/// The title of the explorer tells how it is sorted, whether hidden and generated files
/// are shown, what it is filtered by, and how many paths are selected.
pub proof fn explorer_titles_tell_how_files_are_listed(explorer: Explorer)
    ensures
        ({
            let line = list::explorer_title(explorer);
            &&& mentions(line, explorer.sort.label_text())
            &&& explorer.show_hidden ==> mentions(line, "hidden:on "@)
            &&& !explorer.show_hidden ==> mentions(line, "hidden:off "@)
            &&& explorer.show_ignored ==> mentions(line, "generated:on"@)
            &&& !explorer.show_ignored ==> mentions(line, "generated:off"@)
            &&& explorer.filter is Some ==> mentions(line, " filter:"@ + explorer.filter->0@)
            &&& explorer.selection_count > 0 ==> mentions(
                line,
                " sel:"@ + text::decimal(explorer.selection_count as nat),
            )
        }),
{
    broadcast use lemma_mentions_sum, lemma_mentions_itself;

}

/// The outline draws a row for each symbol in view, one below the other within its
/// border, and says which one stands where.
pub proof fn outline_rows_stand_below_each_other(outline: Outline, area: Rect, k: int)
    requires
        area.wf(),
        area.width >= 2,
        area.height >= 2,
        outline.items@.len() > 0,
        outline.items@.len() <= usize::MAX,
        0 <= k < list::shown_rows(
            outline.items@.len(),
            (area.height - 2) as nat,
            outline.scroll as nat,
        ),
    ensures
        ({
            let view = list::outline_view(outline, area);
            let first = list::first_row(
                outline.items@.len(),
                (area.height - 2) as nat,
                outline.scroll as nat,
            ) as int;
            let place = Rect {
                x: (area.x + 1) as u16,
                y: (area.y + 1 + k) as u16,
                width: (area.width - 2) as u16,
                height: 1,
            };
            &&& view.rows[k] == (place, (first + k) as usize)
            &&& view.ops[1 + k] == (OpView::Label {
                area: place,
                text: list::outline_row_text(outline.items@[first + k], area.width - 2),
                style: style::row_style(
                    outline.focused && list::outline_selection(outline) == first + k,
                    outline.hover == HoverTarget::OutlineRow((first + k) as usize),
                ),
            })
            &&& view.scroll == first
        }),
{
}

/// The editor shows the first pane alone, or the first at the left and the second at the
/// right; each with its own tab.
pub proof fn panes_stand_in_their_halves(editor: editor::Editor, areas: editor::EditorAreas)
    requires
        editor.panes@.len() >= 1,
        areas.halves is Some ==> editor.panes@.len() >= 2,
    ensures
        ({
            let view = editor::editor_view(editor, areas);
            &&& areas.halves is None ==> {
                &&& view.panes.len() == 1
                &&& view.panes[0].area == areas.body
                &&& view.panes[0].pane == editor.panes@[0].0
                &&& view.panes[0].tab == editor.panes@[0].1
            }
            &&& areas.halves matches Some((left, middle, right)) ==> {
                &&& view.panes.len() == 2
                &&& view.panes[0].area == left && view.panes[0].tab == editor.panes@[0].1
                &&& view.panes[1].area == right && view.panes[1].tab == editor.panes@[1].1
                &&& view.panes[0].pane == editor.panes@[0].0
                &&& view.panes[1].pane == editor.panes@[1].0
            }
        }),
{
}

/// The terminal panel shows the active terminal alone, or two terminals side by side.
pub proof fn terminals_stand_in_their_halves(
    panel: terminal::TerminalPanel,
    areas: terminal::TerminalAreas,
)
    requires
        areas.halves is Some ==> panel.visible@.len() >= 2,
    ensures
        ({
            let places = terminal::terminal_places(panel, areas);
            &&& areas.halves is None ==> places.len() == 1 && places[0] == (
                areas.body,
                panel.row.active,
            )
            &&& areas.halves matches Some((left, middle, right)) ==> {
                &&& places.len() == 2
                &&& places[0] == (left, panel.visible@[0])
                &&& places[1] == (right, panel.visible@[1])
            }
        }),
{
}

/// There are as many columns for the text of a pane as its border and the columns left of
/// the text leave: a bookmark, the number, a space and a mark.
pub proof fn text_has_the_columns_that_are_left(area: Rect, line_count: nat)
    requires
        area.wf(),
        area.width >= 2,
        area.height >= 2,
    ensures
        area.width - 2 > editor::number_width(line_count) + 3 ==> editor::code_columns(
            area,
            line_count,
        ) + editor::number_width(line_count) + 5 == area.width,
        area.width - 2 <= editor::number_width(line_count) + 3 ==> editor::code_columns(
            area,
            line_count,
        ) == 0,
{
}

/// The modes that a terminal program set are told in the title, in one word each.
pub proof fn terminal_titles_tell_the_modes(title: TerminalTitle)
    ensures
        ({
            let modes = status::modes_text(title);
            &&& title.alternate_screen ==> mentions(modes, " alt"@)
            &&& title.bracketed_paste ==> mentions(modes, " paste"@)
            &&& title.mouse_mode is AnyMotion ==> mentions(modes, " mouse:any"@)
            &&& title.mouse_mode is ButtonMotion ==> mentions(modes, " mouse:drag"@)
            &&& title.mouse_mode is Press || title.mouse_mode is PressRelease ==> mentions(
                modes,
                " mouse:press"@,
            )
            &&& !title.alternate_screen && !title.bracketed_paste && title.mouse_mode is Off
                ==> modes.len() == 0
            &&& modes.len() > 0 ==> mentions(
                status::terminal_title_line(title),
                "  mode:"@ + text::trimmed(modes),
            )
        }),
{
    broadcast use lemma_mentions_sum, lemma_mentions_itself;

    reveal_strlit("");
}

/// A text where it is shown, and nothing where it is not.
pub open spec fn shown_if(shown: bool, text: Seq<char>) -> Seq<char> {
    if shown {
        text
    } else {
        Seq::empty()
    }
}

/// The description of an open file holds what there is to tell of it, in this order,
/// and nothing of what there is not.
pub proof fn files_are_described_in_order(tab: status::TabStatus)
    ensures
        ({
            let several = tab.selection_count > 1;
            let selected = tab.selected_text is Some;
            let chars = text::decimal(tab.selected_text->0@.len());
            let count = text::decimal(tab.selection_count as nat);
            let number = |n: usize| text::decimal(n as nat);
            status::tab_text(tab) == (if tab.untitled {
                tab.title@
            } else {
                tab.path@
            }) + shown_if(tab.dirty, " *"@) + shown_if(tab.read_only, "  ro"@) + "  Ln "@
                + text::decimal((tab.cursor_line + 1) as nat) + ", Col "@ + text::decimal(
                (tab.cursor_col + 1) as nat,
            ) + shown_if(tab.word_wrap, "  Wrap"@) + shown_if(
                tab.disk is Some,
                "  Disk "@ + tab.disk->0@,
            ) + (shown_if(selected && several, "  Sel "@ + count + "x/"@ + chars + " chars"@)
                + shown_if(selected && !several, "  Sel "@ + chars) + shown_if(
                !selected && several,
                "  Cursors "@ + count,
            )) + shown_if(tab.search_count is Some, "  Find "@ + number(tab.search_count->0))
                + shown_if(tab.problem_count > 0, "  Problems "@ + number(tab.problem_count))
                + shown_if(tab.highlight_count > 0, "  Highlights "@ + number(tab.highlight_count))
                + shown_if(tab.bookmark_count > 0, "  Bookmarks "@ + number(tab.bookmark_count))
                + shown_if(
                tab.line_problem is Some,
                "  "@ + tab.line_problem->0.severity@ + ": "@ + width::truncated(
                    tab.line_problem->0.message@,
                    72,
                ),
            )
        }),
{
    let several = tab.selection_count > 1;
    let selected = tab.selected_text is Some;
    let chars = text::decimal(tab.selected_text->0@.len());
    let count = text::decimal(tab.selection_count as nat);
    assert(status::selection_text(tab) =~= shown_if(
        selected && several,
        "  Sel "@ + count + "x/"@ + chars + " chars"@,
    ) + shown_if(selected && !several, "  Sel "@ + chars) + shown_if(
        !selected && several,
        "  Cursors "@ + count,
    ));
}

/// The status line holds what there is to tell, in this order, and nothing of what there
/// is not.
pub proof fn status_is_told_in_order(status: Status)
    requires
        status.prompt is None,
    ensures
        status::status_line(status) == " "@ + (match status.tab {
            Some(tab) => status::tab_text(tab),
            None => "no file open"@,
        }) + " tabs:"@ + text::decimal(status.tab_count as nat) + "  hover:"@ + label::hover_text(
            status.hover,
        ) + shown_if(status.branch is Some, "  branch:"@ + status.branch->0@) + shown_if(
            status.symbol is Some,
            "  symbol:"@ + status.symbol->0.symbol@ + " defs:"@ + text::decimal(
                status.symbol->0.definition_count as nat,
            ) + " refs:"@ + text::decimal(status.symbol->0.reference_count as nat),
        ) + shown_if(
            status.clipboard is Some,
            "  clipboard:"@ + (if status.clipboard->0.action is Copy {
                "copy"@
            } else {
                "cut"@
            }) + " "@ + (if status.clipboard->0.count == 1 {
                status.clipboard->0.first_name@
            } else {
                text::decimal(status.clipboard->0.count as nat) + " items"@
            }),
        ) + shown_if(
            status.editor_clipboard is Some,
            "  editor-clip:"@ + text::decimal(status.editor_clipboard->0@.len()) + " chars"@,
        ) + shown_if(status.message is Some, "  "@ + status.message->0@) + shown_if(
            status.last_error is Some,
            "  error: "@ + status.last_error->0@,
        ) + " "@,
{
}

/// The title of the terminal holds what there is to tell, in this order, and nothing of
/// what there is not.
pub proof fn terminals_are_told_in_order(title: TerminalTitle)
    ensures
        status::terminal_title_line(title) == " Terminal  "@ + title.title@ + "  cwd:"@ + title.cwd@
            + "  "@ + (if !title.exited {
            "live"@
        } else if title.exit_label is Some {
            title.exit_label->0@
        } else {
            "exited"@
        }) + shown_if(
            title.scrollback > 0,
            "  scroll:"@ + text::decimal(title.scrollback as nat),
        ) + shown_if(
            status::modes_text(title).len() > 0,
            "  mode:"@ + text::trimmed(status::modes_text(title)),
        ) + (match title.search {
            Some((selected, count)) => "  find:"@ + text::decimal(selected as nat) + "/"@
                + text::decimal(count as nat),
            None => Seq::empty(),
        }) + shown_if(title.split, "  split"@)
            + "  F6 focus  F7 new  F8 next  F9 close  F12 max "@,
{
}

/// The title of the explorer holds what there is to tell, in this order, and nothing of
/// what there is not.
pub proof fn listings_are_told_in_order(explorer: Explorer)
    ensures
        ({
            let line = list::explorer_title(explorer);
            let start = " Explorer  / filter  s sort:"@ + explorer.sort.label_text();
            let end = (if explorer.show_hidden {
                "hidden:on "@
            } else {
                "hidden:off "@
            }) + (if explorer.show_ignored {
                "generated:on"@
            } else {
                "generated:off"@
            }) + shown_if(explorer.filter is Some, " filter:"@ + explorer.filter->0@) + shown_if(
                explorer.selection_count > 0,
                " sel:"@ + text::decimal(explorer.selection_count as nat)
                    + "  Space toggle  Shift/Ctrl-click  drag move  Alt-drag copy"@,
            ) + " "@;
            &&& start.is_prefix_of(line)
            &&& end.len() <= line.len()
            &&& line.skip(line.len() - end.len()) == end
        }),
{
    let line = list::explorer_title(explorer);
    let start = " Explorer  / filter  s sort:"@ + explorer.sort.label_text();
    let hidden = if explorer.show_hidden {
        "hidden:on "@
    } else {
        "hidden:off "@
    };
    let generated = if explorer.show_ignored {
        "generated:on"@
    } else {
        "generated:off"@
    };
    let filter = shown_if(explorer.filter is Some, " filter:"@ + explorer.filter->0@);
    let selected = shown_if(
        explorer.selection_count > 0,
        " sel:"@ + text::decimal(explorer.selection_count as nat)
            + "  Space toggle  Shift/Ctrl-click  drag move  Alt-drag copy"@,
    );
    let end = hidden + generated + filter + selected + " "@;
    let keys =
        "  . hidden  i generated  n/N new  e rename  D delete  c copy  x cut  p paste  y dup  o reveal  O open  r refresh  "@;
    assert(line =~= start + keys + end);
    assert(line.subrange(0, start.len() as int) =~= start);
    assert(line.skip(line.len() - end.len()) =~= end);
}

/// The modes of a terminal program are told in one order: the other screen, pasting, and
/// the mouse.
pub proof fn modes_are_told_in_order(title: TerminalTitle)
    ensures
        status::modes_text(title) == shown_if(title.alternate_screen, " alt"@) + shown_if(
            title.bracketed_paste,
            " paste"@,
        ) + (if title.mouse_mode is AnyMotion {
            " mouse:any"@
        } else if title.mouse_mode is ButtonMotion {
            " mouse:drag"@
        } else if title.mouse_mode is Off {
            Seq::empty()
        } else {
            " mouse:press"@
        }),
{
    reveal_strlit("");
    assert(""@ =~= Seq::<char>::empty());
}

/// The status line stands out while it asks for something.
pub proof fn questions_stand_out_in_the_status_line()
    ensures
        status::status_style(true).fg == Some(Color::White),
        status::status_style(true).bg == Some(Color::Rgb(24, 64, 92)),
        status::status_style(false).fg == Some(Color::Rgb(205, 213, 224)),
        status::status_style(false).bg == Some(Color::Rgb(32, 40, 54)),
        line::selection_style().fg == Some(Color::White),
        line::selection_style().bg == Some(Color::Rgb(24, 64, 92)),
{
}

/// Bookmarks and folded lines are marked in blue, and line numbers and other marks in
/// gray, where the line has no problem.
pub proof fn gutters_are_colored_by_what_they_mark(row: VisualRow, marks: MarksView, room: nat)
    ensures
        ({
            let spans = editor::gutter(row, marks, room);
            let blue = Some(Color::Rgb(89, 169, 255));
            let gray = Some(Color::Rgb(117, 132, 154));
            &&& spans[0].1.fg == if marks.bookmarked && !row.continuation {
                blue
            } else {
                gray
            }
            &&& spans[0].1.bg is None
            &&& marks.problem is None ==> spans[1].1.fg == gray && spans[1].1.bg is None
            &&& marks.problem is None ==> spans[2].1.bg is None && spans[2].1.fg == if marks.folded {
                blue
            } else {
                gray
            }
        }),
{
}

/// A wrapped text is not scrolled to the side; another one is scrolled as far as it was,
/// but no further than its longest line reaches.
pub proof fn wrapped_text_is_not_scrolled_to_the_side(
    pane: EditorPane,
    area: Rect,
    plan: PanePlan,
)
    requires
        editor::is_plan(pane, area, plan),
    ensures
        pane.word_wrap ==> plan.horizontal_scroll == 0,
        !pane.word_wrap ==> plan.horizontal_scroll <= pane.horizontal_scroll,
        !pane.word_wrap && pane.horizontal_scroll <= editor::scroll_limit(
            pane.lines@,
            plan.columns as nat,
        ) ==> plan.horizontal_scroll == pane.horizontal_scroll,
        plan.columns == editor::code_columns(area, pane.lines@.len()),
        plan.inner == area.within_border(),
        plan.first + plan.count <= pane.rows@.len(),
        plan.count <= plan.inner.height,
{
}

/// A pane is headed by its number, counted from one, where there are two of them.
pub proof fn panes_are_headed_by_their_numbers(pane: EditorPane)
    ensures
        pane.split ==> {
            let head = " Editor "@ + text::decimal((pane.number + 1) as nat);
            head.is_prefix_of(editor::pane_title(pane))
        },
        !pane.split ==> editor::pane_title(pane)
            == " Editor  Ctrl-S save  Ctrl-F find  Ctrl-H replace  Alt-[ fold  Alt-0 fold all  Alt-] unfold "@,
{
    let head = " Editor "@ + text::decimal((pane.number + 1) as nat);
    let rest = "  Ctrl-S save  Ctrl-F find  Ctrl-H replace  Ctrl-\\ split "@;
    assert((head + rest).subrange(0, head.len() as int) =~= head);
}

/// The outline names the file that it is of, cut to 24 columns, or says that there is
/// none; and so does the list below where it is empty.
pub proof fn outlines_name_their_file(outline: Outline, area: Rect)
    ensures
        list::outline_title(outline) == " Outline  m files  r refresh  O quick  "@
            + width::truncated(
            if outline.active is Some {
                outline.active->0@
            } else {
                "no file"@
            },
            24,
        ) + " "@,
        list::outline_view(outline, area).ops[0] == (OpView::Panel {
            area,
            title: list::outline_title(outline),
            border: style::border_style(outline.focused),
        }),
        outline.items@.len() == 0 ==> list::outline_view(outline, area).ops.len() == 2
            && list::outline_view(outline, area).ops[1] == (OpView::Label {
            area: area.within_border(),
            text: "Open a source file to see symbols."@,
            style: style::muted_style(),
        }),
{
}

/// The explorer is drawn in a frame with its title, which tells whether it takes the keys.
pub proof fn explorers_are_drawn_in_a_frame(explorer: Explorer, area: Rect)
    ensures
        ({
            let view = list::explorer_view(explorer, area);
            &&& view.ops[0] is Panel
            &&& view.ops[0]->Panel_area == area
            &&& view.ops[0]->Panel_title == list::explorer_title(explorer)
            &&& view.ops[0]->Panel_border.fg == Some(
                if explorer.focused {
                    Color::Rgb(89, 169, 255)
                } else {
                    Color::Rgb(75, 89, 110)
                },
            )
            &&& view.height == area.within_border().height
        }),
{
}

/// An editor without a pane says how to open a file.
pub proof fn empty_editors_say_how_to_open_a_file(editor: editor::Editor, areas: editor::EditorAreas)
    requires
        editor.panes@.len() == 0,
    ensures
        ({
            let view = editor::editor_view(editor, areas);
            let n = view.ops.len() as int;
            &&& view.panes.len() == 0
            &&& view.empty == Some(areas.body.within_border())
            &&& n >= 2
            &&& view.ops[n - 2] == (OpView::Panel {
                area: areas.body,
                title: " Editor "@,
                border: style::border_style(editor.focused),
            })
            &&& view.ops[n - 1] == (OpView::Label {
                area: areas.body.within_border(),
                text: "Click a file in Explorer to open it."@,
                style: style::muted_style(),
            })
        }),
{
}

/// The halves of a panel stand apart by a line from its top to its bottom.
pub proof fn halves_stand_apart_by_a_line(area: Rect, k: int)
    requires
        0 <= k < area.height,
    ensures
        ({
            let drawn = crate::ui::op::separator(area);
            &&& drawn is Lines
            &&& drawn->Lines_area == area
            &&& drawn->Lines_lines.len() == area.height
            &&& drawn->Lines_lines[k].spans.len() == 1
            &&& drawn->Lines_lines[k].spans[0].0 == seq!['\u{2502}']
            &&& drawn->Lines_style.fg == Some(Color::Rgb(75, 89, 110))
        }),
{
    reveal_strlit("\u{2502}");
    assert("\u{2502}"@ =~= seq!['\u{2502}']);
}

} // verus!
