//! The texts of the lines at the top and at the bottom of the screen, and of
//! the title of the terminal.

use vstd::prelude::*;

use crate::mouse::MouseProtocolMode;
use crate::text;
use crate::ui::area::Rect;
use crate::ui::label;
use crate::ui::label::FocusPanel;
use crate::ui::label::HoverTarget;
use crate::ui::label::PromptKind;
use crate::ui::op;
use crate::ui::op::DrawOp;
use crate::ui::op::OpView;
use crate::ui::style;
use crate::ui::style::Color;
use crate::ui::style::Style;
use crate::ui::width;

verus! {

/// The line at the top of the screen.
pub open spec fn title_line(root: Seq<char>, sidebar: Seq<char>, focus: FocusPanel) -> Seq<char> {
    " tscode  "@ + root + "  sidebar:"@ + sidebar + "  focus:"@ + label::focus_text(focus) + " "@
}

pub fn title_text(root: &str, sidebar: &str, focus: FocusPanel) -> (out: String)
    ensures
        out@ == title_line(root@, sidebar@, focus),
{
    let mut out = " tscode  ".to_owned();
    out.append(root);
    out.append("  sidebar:");
    out.append(sidebar);
    out.append("  focus:");
    out.append(label::focus_name(focus));
    out.append(" ");
    out
}

/// Draws the line at the top of the screen.
pub fn draw_title(root: &str, sidebar: &str, focus: FocusPanel, area: Rect) -> (ops: Vec<DrawOp>)
    ensures
        op::ops_view(ops@) == op::no_ops().push(
            (OpView::Label {
                area,
                text: title_line(root@, sidebar@, focus),
                style: style::bar_style(),
            }),
        ),
{
    let mut ops = op::none();
    op::push_label(&mut ops, area, &title_text(root, sidebar, focus), style::bar_style());
    ops
}

/// A problem of the line that the cursor is in.
#[derive(Debug, Clone, PartialEq, Eq)]
pub struct LineProblem {
    pub severity: String,
    pub message: String,
}

/// What the status line says of the active editor tab.
#[derive(Debug, Clone, PartialEq, Eq)]
pub struct TabStatus {
    pub untitled: bool,
    pub title: String,
    pub path: String,
    pub dirty: bool,
    pub read_only: bool,
    /// What happened to the file on disk, if anything.
    pub disk: Option<String>,
    pub selected_text: Option<String>,
    pub selection_count: usize,
    pub search_count: Option<usize>,
    pub problem_count: usize,
    pub highlight_count: usize,
    pub bookmark_count: usize,
    pub word_wrap: bool,
    pub line_problem: Option<LineProblem>,
    pub cursor_line: usize,
    pub cursor_col: usize,
}

#[derive(Debug, Clone, Copy, PartialEq, Eq, Structural)]
pub enum ClipboardAction {
    Copy,
    Cut,
}

/// The files in the clipboard of the explorer: how many, and the name of the
/// first one.
#[derive(Debug, Clone, PartialEq, Eq)]
pub struct ClipboardStatus {
    pub action: ClipboardAction,
    pub count: usize,
    pub first_name: String,
}

/// The symbol that the mouse is over.
#[derive(Debug, Clone, PartialEq, Eq)]
pub struct SymbolStatus {
    pub symbol: String,
    pub definition_count: usize,
    pub reference_count: usize,
}

/// What the user is asked for, and the answer as far as it is typed.
#[derive(Debug, Clone, PartialEq, Eq)]
pub struct PromptStatus {
    pub kind: PromptKind,
    pub input: String,
}

/// All that the status line says.
#[derive(Debug, Clone, PartialEq, Eq)]
pub struct Status {
    pub prompt: Option<PromptStatus>,
    pub tab: Option<TabStatus>,
    pub tab_count: usize,
    pub hover: HoverTarget,
    pub branch: Option<String>,
    pub symbol: Option<SymbolStatus>,
    pub clipboard: Option<ClipboardStatus>,
    pub editor_clipboard: Option<String>,
    pub message: Option<String>,
    pub last_error: Option<String>,
}

pub open spec fn nothing() -> Seq<char> {
    Seq::empty()
}

/// A text with a heading, unless the count is zero.
pub open spec fn counted(heading: Seq<char>, n: usize) -> Seq<char> {
    if n == 0 {
        nothing()
    } else {
        heading + text::decimal(n as nat)
    }
}

/// What is selected: the number of characters, with the number of selections
/// where there are several, or the number of cursors.
pub open spec fn selection_text(tab: TabStatus) -> Seq<char> {
    match tab.selected_text {
        Some(selected) => if tab.selection_count > 1 {
            "  Sel "@ + text::decimal(tab.selection_count as nat) + "x/"@ + text::decimal(
                selected@.len(),
            ) + " chars"@
        } else {
            "  Sel "@ + text::decimal(selected@.len())
        },
        None => if tab.selection_count > 1 {
            "  Cursors "@ + text::decimal(tab.selection_count as nat)
        } else {
            nothing()
        },
    }
}

/// What the status line says of a tab.
pub open spec fn tab_text(tab: TabStatus) -> Seq<char> {
    let name = if tab.untitled {
        tab.title@
    } else {
        tab.path@
    };
    let dirty = if tab.dirty {
        " *"@
    } else {
        nothing()
    };
    let read_only = if tab.read_only {
        "  ro"@
    } else {
        nothing()
    };
    let wrap = if tab.word_wrap {
        "  Wrap"@
    } else {
        nothing()
    };
    let disk = match tab.disk {
        Some(state) => "  Disk "@ + state@,
        None => nothing(),
    };
    let search = match tab.search_count {
        Some(n) => "  Find "@ + text::decimal(n as nat),
        None => nothing(),
    };
    let line_problem = match tab.line_problem {
        Some(problem) => "  "@ + problem.severity@ + ": "@ + width::truncated(problem.message@, 72),
        None => nothing(),
    };
    name + dirty + read_only + "  Ln "@ + text::decimal((tab.cursor_line + 1) as nat) + ", Col "@
        + text::decimal((tab.cursor_col + 1) as nat) + wrap + disk + selection_text(tab) + search
        + counted("  Problems "@, tab.problem_count) + counted(
        "  Highlights "@,
        tab.highlight_count,
    ) + counted("  Bookmarks "@, tab.bookmark_count) + line_problem
}

/// A text behind a heading, where there is one.
pub open spec fn headed(heading: Seq<char>, text: Option<Seq<char>>) -> Seq<char> {
    match text {
        Some(text) => heading + text,
        None => nothing(),
    }
}

pub open spec fn clipboard_text(clipboard: Option<ClipboardStatus>) -> Seq<char> {
    match clipboard {
        Some(clipboard) => {
            let action = match clipboard.action {
                ClipboardAction::Copy => "copy"@,
                ClipboardAction::Cut => "cut"@,
            };
            let target = if clipboard.count == 1 {
                clipboard.first_name@
            } else {
                text::decimal(clipboard.count as nat) + " items"@
            };
            "  clipboard:"@ + action + " "@ + target
        },
        None => nothing(),
    }
}

pub open spec fn symbol_text(symbol: Option<SymbolStatus>) -> Seq<char> {
    match symbol {
        Some(symbol) => "  symbol:"@ + symbol.symbol@ + " defs:"@ + text::decimal(
            symbol.definition_count as nat,
        ) + " refs:"@ + text::decimal(symbol.reference_count as nat),
        None => nothing(),
    }
}

/// The line at the bottom of the screen: the prompt where there is one, else the
/// state of the workspace.
pub open spec fn status_line(status: Status) -> Seq<char> {
    match status.prompt {
        Some(prompt) => " "@ + label::prompt_text(prompt.kind) + ": "@ + prompt.input@ + " "@,
        None => {
            let active = match status.tab {
                Some(tab) => tab_text(tab),
                None => "no file open"@,
            };
            let editor_clipboard = match status.editor_clipboard {
                Some(text) => "  editor-clip:"@ + text::decimal(text@.len()) + " chars"@,
                None => nothing(),
            };
            " "@ + active + " tabs:"@ + text::decimal(status.tab_count as nat) + "  hover:"@
                + label::hover_text(status.hover) + headed(
                "  branch:"@,
                text::maybe(status.branch),
            ) + symbol_text(status.symbol) + clipboard_text(status.clipboard) + editor_clipboard
                + headed("  "@, text::maybe(status.message)) + headed(
                "  error: "@,
                text::maybe(status.last_error),
            ) + " "@
        },
    }
}

pub fn push_number(out: &mut String, n: usize)
    ensures
        final(out)@ == old(out)@ + text::decimal(n as nat),
{
    text::push_decimal(out, n as u64);
}

/// Appends a number counted from one.
pub fn push_ordinal(out: &mut String, n: usize)
    ensures
        final(out)@ == old(out)@ + text::decimal((n + 1) as nat),
{
    text::push_long_decimal(out, n as u128 + 1);
}

pub proof fn lemma_nothing(text: Seq<char>)
    ensures
        text + nothing() == text,
{
    assert(text + nothing() =~= text);
}

pub fn push_counted(out: &mut String, heading: &str, n: usize)
    ensures
        final(out)@ == old(out)@ + counted(heading@, n),
{
    let ghost before = out@;
    proof {
        lemma_nothing(before);
    }
    if n != 0 {
        out.append(heading);
        push_number(out, n);
        proof {
            assert(out@ =~= before + (heading@ + text::decimal(n as nat)));
        }
    }
}

pub fn push_headed(out: &mut String, heading: &str, text: &Option<String>)
    ensures
        final(out)@ == old(out)@ + headed(heading@, text::maybe(*text)),
{
    let ghost before = out@;
    proof {
        lemma_nothing(before);
    }
    if let Some(inner) = text {
        out.append(heading);
        out.append(inner);
        proof {
            assert(out@ =~= before + (heading@ + inner@));
        }
    }
}

pub fn push_flag(out: &mut String, flag: bool, text: &str)
    ensures
        final(out)@ == old(out)@ + (if flag {
            text@
        } else {
            nothing()
        }),
{
    proof {
        lemma_nothing(out@);
    }
    if flag {
        out.append(text);
    }
}

fn push_selection(out: &mut String, tab: &TabStatus)
    ensures
        final(out)@ == old(out)@ + selection_text(*tab),
{
    let ghost before = out@;
    proof {
        lemma_nothing(before);
    }
    match &tab.selected_text {
        Some(selected) => {
            out.append("  Sel ");
            if tab.selection_count > 1 {
                push_number(out, tab.selection_count);
                out.append("x/");
                push_number(out, text::count(selected));
                out.append(" chars");
            } else {
                push_number(out, text::count(selected));
            }
        },
        None => {
            if tab.selection_count > 1 {
                out.append("  Cursors ");
                push_number(out, tab.selection_count);
            }
        },
    }
    proof {
        assert(out@ =~= before + selection_text(*tab));
    }
}

fn push_line_problem(out: &mut String, problem: &Option<LineProblem>)
    ensures
        final(out)@ == old(out)@ + (match *problem {
            Some(problem) => "  "@ + problem.severity@ + ": "@ + width::truncated(
                problem.message@,
                72,
            ),
            None => nothing(),
        }),
{
    let ghost before = out@;
    proof {
        lemma_nothing(before);
    }
    if let Some(problem) = problem {
        out.append("  ");
        out.append(&problem.severity);
        out.append(": ");
        out.append(&width::truncate_width(&problem.message, 72));
        proof {
            assert(out@ =~= before + ("  "@ + problem.severity@ + ": "@ + width::truncated(
                problem.message@,
                72,
            )));
        }
    }
}

fn push_search(out: &mut String, count: Option<usize>)
    ensures
        final(out)@ == old(out)@ + (match count {
            Some(n) => "  Find "@ + text::decimal(n as nat),
            None => nothing(),
        }),
{
    let ghost before = out@;
    proof {
        lemma_nothing(before);
    }
    if let Some(n) = count {
        out.append("  Find ");
        push_number(out, n);
        proof {
            assert(out@ =~= before + ("  Find "@ + text::decimal(n as nat)));
        }
    }
}

/// What the status line says of a tab.
pub fn tab_status_text(tab: &TabStatus) -> (out: String)
    ensures
        out@ == tab_text(*tab),
{
    let mut out = if tab.untitled {
        tab.title.clone()
    } else {
        tab.path.clone()
    };
    push_flag(&mut out, tab.dirty, " *");
    push_flag(&mut out, tab.read_only, "  ro");
    out.append("  Ln ");
    push_ordinal(&mut out, tab.cursor_line);
    out.append(", Col ");
    push_ordinal(&mut out, tab.cursor_col);
    push_flag(&mut out, tab.word_wrap, "  Wrap");
    push_headed(&mut out, "  Disk ", &tab.disk);
    push_selection(&mut out, tab);
    push_search(&mut out, tab.search_count);
    push_counted(&mut out, "  Problems ", tab.problem_count);
    push_counted(&mut out, "  Highlights ", tab.highlight_count);
    push_counted(&mut out, "  Bookmarks ", tab.bookmark_count);
    push_line_problem(&mut out, &tab.line_problem);
    out
}

fn push_symbol(out: &mut String, symbol: &Option<SymbolStatus>)
    ensures
        final(out)@ == old(out)@ + symbol_text(*symbol),
{
    let ghost before = out@;
    proof {
        lemma_nothing(before);
    }
    if let Some(symbol) = symbol {
        out.append("  symbol:");
        out.append(&symbol.symbol);
        out.append(" defs:");
        push_number(out, symbol.definition_count);
        out.append(" refs:");
        push_number(out, symbol.reference_count);
    }
    proof {
        assert(out@ =~= before + symbol_text(*symbol));
    }
}

fn push_clipboard(out: &mut String, clipboard: &Option<ClipboardStatus>)
    ensures
        final(out)@ == old(out)@ + clipboard_text(*clipboard),
{
    let ghost before = out@;
    proof {
        lemma_nothing(before);
    }
    if let Some(clipboard) = clipboard {
        out.append("  clipboard:");
        match clipboard.action {
            ClipboardAction::Copy => {
                out.append("copy");
            },
            ClipboardAction::Cut => {
                out.append("cut");
            },
        }
        out.append(" ");
        if clipboard.count == 1 {
            out.append(&clipboard.first_name);
        } else {
            push_number(out, clipboard.count);
            out.append(" items");
        }
    }
    proof {
        assert(out@ =~= before + clipboard_text(*clipboard));
    }
}

fn push_editor_clipboard(out: &mut String, clipboard: &Option<String>)
    ensures
        final(out)@ == old(out)@ + (match *clipboard {
            Some(text) => "  editor-clip:"@ + text::decimal(text@.len()) + " chars"@,
            None => nothing(),
        }),
{
    let ghost before = out@;
    proof {
        lemma_nothing(before);
    }
    if let Some(text) = clipboard {
        out.append("  editor-clip:");
        push_number(out, text::count(text));
        out.append(" chars");
        proof {
            assert(out@ =~= before + ("  editor-clip:"@ + text::decimal(text@.len())
                + " chars"@));
        }
    }
}

/// The line at the bottom of the screen.
pub fn status_text(status: &Status) -> (out: String)
    ensures
        out@ == status_line(*status),
{
    if let Some(prompt) = &status.prompt {
        let mut out = " ".to_owned();
        out.append(label::prompt_title(prompt.kind));
        out.append(": ");
        out.append(&prompt.input);
        out.append(" ");
        return out;
    }
    let mut out = " ".to_owned();
    match &status.tab {
        Some(tab) => {
            out.append(&tab_status_text(tab));
        },
        None => {
            out.append("no file open");
        },
    }
    out.append(" tabs:");
    push_number(&mut out, status.tab_count);
    out.append("  hover:");
    out.append(&label::hover_name(&status.hover));
    push_headed(&mut out, "  branch:", &status.branch);
    push_symbol(&mut out, &status.symbol);
    push_clipboard(&mut out, &status.clipboard);
    push_editor_clipboard(&mut out, &status.editor_clipboard);
    push_headed(&mut out, "  ", &status.message);
    push_headed(&mut out, "  error: ", &status.last_error);
    out.append(" ");
    out
}

/// The style of the line at the bottom of the screen, which stands out where the
/// user is asked something.
#[verifier::allow_in_spec]
pub fn status_style(asking: bool) -> Style
    returns
        if asking {
            style::plain().fg(Color::White).bg(style::active_bg())
        } else {
            style::bar_style()
        },
{
    if asking {
        style::plain().fg(Color::White).bg(style::active_bg())
    } else {
        style::bar_style()
    }
}

/// Draws the line at the bottom of the screen.
pub fn draw_status(status: &Status, area: Rect) -> (ops: Vec<DrawOp>)
    ensures
        op::ops_view(ops@) == op::no_ops().push(
            (OpView::Label {
                area,
                text: status_line(*status),
                style: status_style(status.prompt is Some),
            }),
        ),
{
    let mut ops = op::none();
    op::push_label(&mut ops, area, &status_text(status), status_style(status.prompt.is_some()));
    ops
}

/// What the title of the terminal says.
#[derive(Debug, Clone, PartialEq, Eq)]
pub struct TerminalTitle {
    pub title: String,
    /// The directory of the shell, as it is shown.
    pub cwd: String,
    pub exited: bool,
    /// How the shell ended, where that is known.
    pub exit_label: Option<String>,
    pub scrollback: usize,
    pub alternate_screen: bool,
    pub bracketed_paste: bool,
    pub mouse_mode: MouseProtocolMode,
    /// The number of the selected search result and of all of them.
    pub search: Option<(usize, usize)>,
    pub split: bool,
}

/// The modes that the terminal program set.
pub open spec fn modes_text(title: TerminalTitle) -> Seq<char> {
    let alt = if title.alternate_screen {
        " alt"@
    } else {
        nothing()
    };
    let paste = if title.bracketed_paste {
        " paste"@
    } else {
        nothing()
    };
    alt + paste + label::mouse_text(title.mouse_mode)
}

/// The title of the terminal.
pub open spec fn terminal_title_line(title: TerminalTitle) -> Seq<char> {
    let state = if title.exited {
        match title.exit_label {
            Some(exit_label) => exit_label@,
            None => "exited"@,
        }
    } else {
        "live"@
    };
    let modes = if modes_text(title).len() == 0 {
        nothing()
    } else {
        "  mode:"@ + text::trimmed(modes_text(title))
    };
    let search = match title.search {
        Some((selected, count)) => "  find:"@ + text::decimal(selected as nat) + "/"@
            + text::decimal(count as nat),
        None => nothing(),
    };
    let split = if title.split {
        "  split"@
    } else {
        nothing()
    };
    " Terminal  "@ + title.title@ + "  cwd:"@ + title.cwd@ + "  "@ + state + counted(
        "  scroll:"@,
        title.scrollback,
    ) + modes + search + split + "  F6 focus  F7 new  F8 next  F9 close  F12 max "@
}

fn push_modes(out: &mut String, title: &TerminalTitle)
    ensures
        final(out)@ == old(out)@ + (if modes_text(*title).len() == 0 {
            nothing()
        } else {
            "  mode:"@ + text::trimmed(modes_text(*title))
        }),
{
    let ghost before = out@;
    let mut modes = String::new();
    push_flag(&mut modes, title.alternate_screen, " alt");
    push_flag(&mut modes, title.bracketed_paste, " paste");
    modes.append(label::terminal_mouse_label(title.mouse_mode));
    proof {
        lemma_nothing(before);
        assert(modes@ =~= modes_text(*title));
    }
    if !modes.as_str().is_empty() {
        out.append("  mode:");
        out.append(&text::trim(&modes));
        proof {
            assert(out@ =~= before + ("  mode:"@ + text::trimmed(modes_text(*title))));
        }
    }
}

/// The title of the terminal.
pub fn terminal_panel_title(title: &TerminalTitle) -> (out: String)
    ensures
        out@ == terminal_title_line(*title),
{
    let mut out = " Terminal  ".to_owned();
    out.append(&title.title);
    out.append("  cwd:");
    out.append(&title.cwd);
    out.append("  ");
    if title.exited {
        match &title.exit_label {
            Some(exit_label) => {
                out.append(exit_label);
            },
            None => {
                out.append("exited");
            },
        }
    } else {
        out.append("live");
    }
    push_counted(&mut out, "  scroll:", title.scrollback);
    push_modes(&mut out, title);
    let ghost before = out@;
    proof {
        lemma_nothing(before);
    }
    if let Some((selected, count)) = title.search {
        out.append("  find:");
        push_number(&mut out, selected);
        out.append("/");
        push_number(&mut out, count);
        proof {
            assert(out@ =~= before + ("  find:"@ + text::decimal(selected as nat) + "/"@
                + text::decimal(count as nat)));
        }
    }
    push_flag(&mut out, title.split, "  split");
    out.append("  F6 focus  F7 new  F8 next  F9 close  F12 max ");
    out
}

} // verus!
