//! The integrated terminal: what a shell wrote, and what is sent to it.

pub mod laws;

use vstd::prelude::*;

use crate::keys;
use crate::keys::KeyEvent;
use crate::keys::KeyModifiers;
use crate::mouse;
use crate::mouse::MouseButton;
use crate::mouse::MouseEventKind;
use crate::mouse::MouseProtocolMode;
use crate::osc::OscTracker;
use crate::osc::OscView;
use crate::path::components;
use crate::path::Platform;
use crate::screen;
use crate::screen::CellView;
use crate::screen::Emulator;
use crate::screen::Terminal;
use crate::search;
use crate::spans;
use crate::text;

use ::portable_pty::ExitStatus;

pub use crate::screen::TerminalStyle;
pub use crate::spans::TerminalSpan;

verus! {

/// The number of rows scrolled off the screen that are kept.
pub const SCROLLBACK: usize = 10_000;

/// A place in the terminal where a searched text stands: a row counted from
/// the oldest one that is kept, and character columns.
#[derive(Debug, Clone, Copy, PartialEq, Eq, Structural)]
pub struct TerminalSearchMatch {
    pub row: usize,
    pub start: usize,
    pub end: usize,
}

/// How a shell ended.
#[derive(Debug, Clone, PartialEq, Eq)]
pub struct ShellExitStatus {
    pub code: u32,
    pub signal: Option<String>,
    pub success: bool,
}

/// The exit status of the `portable-pty` crate.
#[verifier::external_type_specification]
#[verifier::external_body]
pub struct ExExitStatus(ExitStatus);

/// The code that `ExitStatus::exit_code` gives.
pub uninterp spec fn exit_code(status: ExitStatus) -> u32;

/// The name of the signal that `ExitStatus::signal` gives.
pub uninterp spec fn exit_signal(status: ExitStatus) -> Option<Seq<char>>;

/// Calls `ExitStatus::exit_code` of the `portable-pty` crate.
#[verifier::external_body]
fn code_of(status: &ExitStatus) -> (code: u32)
    ensures
        code == exit_code(*status),
{
    status.exit_code()
}

/// Calls `ExitStatus::signal` of the `portable-pty` crate.
#[verifier::external_body]
fn signal_of(status: &ExitStatus) -> (signal: Option<String>)
    ensures
        text::maybe(signal) == exit_signal(*status),
{
    status.signal().map(|signal| signal.to_owned())
}

/// Calls `ExitStatus::success` of the `portable-pty` crate: a process that ended
/// by a signal failed, and any other one succeeded where its code is zero.
#[verifier::external_body]
fn succeeded(status: &ExitStatus) -> (success: bool)
    ensures
        success == (exit_signal(*status) is None && exit_code(*status) == 0),
{
    status.success()
}

impl ShellExitStatus {
    pub fn from_status(status: ExitStatus) -> (out: ShellExitStatus)
        ensures
            out.code == exit_code(status),
            text::maybe(out.signal) == exit_signal(status),
            out.success == (out.code == 0 && out.signal is None),
    {
        ShellExitStatus {
            code: code_of(&status),
            signal: signal_of(&status),
            success: succeeded(&status),
        }
    }

    pub open spec fn label_text(&self) -> Seq<char> {
        match self.signal {
            Some(signal) => "signal:"@ + signal@,
            None => "exit:"@ + text::decimal(self.code as nat),
        }
    }

    pub fn label(&self) -> (label: String)
        ensures
            label@ == self.label_text(),
    {
        match &self.signal {
            Some(signal) => {
                let mut label = "signal:".to_owned();
                label.append(signal);
                label
            },
            None => {
                let mut label = "exit:".to_owned();
                text::push_decimal(&mut label, self.code as u64);
                label
            },
        }
    }
}

/// Whether anything is to be seen of a cell.
pub open spec fn shows(cell: CellView) -> bool {
    !cell.continuation && (cell.contents.len() > 0 || cell.style != screen::default_style())
}

/// The last of the first `cols` columns of a row in view of which anything is
/// to be seen.
pub open spec fn last_used_col(terminal: Terminal, row: u16, cols: u16) -> Option<u16>
    decreases cols,
{
    if cols == 0 {
        None
    } else {
        let col = (cols - 1) as u16;
        match terminal.cell(row, col) {
            Some(cell) => if shows(cell) {
                Some(
                    if cell.wide {
                        cols
                    } else {
                        col
                    },
                )
            } else {
                last_used_col(terminal, row, col)
            },
            None => last_used_col(terminal, row, col),
        }
    }
}

/// What the first `cols` cells of a row in view show; a cell without contents
/// shows a space.
pub open spec fn shown_cells(terminal: Terminal, row: u16, cols: int) -> Seq<
    (Seq<char>, TerminalStyle),
>
    decreases cols,
{
    if cols <= 0 {
        Seq::empty()
    } else {
        let before = shown_cells(terminal, row, cols - 1);
        match terminal.cell(row, (cols - 1) as u16) {
            Some(cell) => if cell.continuation {
                before
            } else if cell.contents.len() > 0 {
                before.push((cell.contents, cell.style))
            } else {
                before.push((" "@, cell.style))
            },
            None => before,
        }
    }
}

/// A row in view, up to the last column of which anything is to be seen, as
/// runs of one style.
pub open spec fn styled_row(terminal: Terminal, row: u16) -> Seq<(Seq<char>, TerminalStyle)> {
    match last_used_col(terminal, row, terminal.cols) {
        None => Seq::empty(),
        Some(last) => {
            let end = if last < terminal.cols {
                last + 1
            } else {
                terminal.cols as int
            };
            spans::runs(shown_cells(terminal, row, end))
        },
    }
}

/// The places of a search in the first `rows` of all rows.
pub open spec fn found_in_rows(lines: Seq<Seq<char>>, needle: Seq<char>, rows: nat) -> Seq<
    TerminalSearchMatch,
>
    decreases rows,
{
    if rows == 0 || rows > lines.len() {
        Seq::empty()
    } else {
        let row = (rows - 1) as nat;
        found_in_rows(lines, needle, row) + search::ranges(lines[row as int], needle).map_values(
            |r: (usize, usize)|
                TerminalSearchMatch { row: row as usize, start: r.0, end: r.1 },
        )
    }
}

/// What a terminal holds after output, brought into view where the view is kept
/// at the end.
pub open spec fn shown_after(emulator: Emulator, bytes: Seq<u8>, at_end: bool) -> Terminal {
    if at_end {
        screen::after_output(emulator, bytes).scrolled_to(0)
    } else {
        screen::after_output(emulator, bytes)
    }
}

/// Whether a sequence of emulators leads from the first to the last by one piece
/// of output after the other.
pub open spec fn is_chain(
    chain: Seq<Emulator>,
    before: Emulator,
    after: Emulator,
    chunks: Seq<Vec<u8>>,
    at_end: bool,
) -> bool {
    &&& chain.len() == chunks.len() + 1
    &&& chain[0] == before
    &&& chain.last() == after
    &&& forall|k: int|
        0 <= k < chunks.len() ==> screen::terminal(#[trigger] chain[k + 1]) == shown_after(
            chain[k],
            chunks[k]@,
            at_end,
        )
}

/// Whether one emulator follows from another by pieces of output.
pub open spec fn drained(
    before: Emulator,
    after: Emulator,
    chunks: Seq<Vec<u8>>,
    at_end: bool,
) -> bool {
    exists|chain: Seq<Emulator>| #[trigger] is_chain(chain, before, after, chunks, at_end)
}

/// A terminal panel: the emulator, what the shell reported, how far the user
/// scrolled back, and whether a narrower size has cut a wide character.
pub struct ShellPanel {
    emulator: Emulator,
    osc: OscTracker,
    rows: u16,
    cols: u16,
    user_scrollback: usize,
    cut: bool,
}

pub struct PanelView {
    pub terminal: Terminal,
    pub osc: OscView,
    pub user_scrollback: usize,
    pub cut: bool,
}

impl ShellPanel {
    pub closed spec fn view(&self) -> PanelView {
        PanelView {
            terminal: screen::terminal(self.emulator),
            osc: self.osc@,
            user_scrollback: self.user_scrollback,
            cut: self.cut,
        }
    }

    /// The emulator itself, of which `self@` says what it holds.
    pub closed spec fn emulator(&self) -> Emulator {
        self.emulator
    }

    /// The panel knows the size of its terminal, which is at least one row of
    /// two columns, and whether a wide character may be cut.
    pub closed spec fn wf(&self) -> bool {
        &&& screen::terminal(self.emulator).sound()
        &&& screen::terminal(self.emulator).rows == self.rows
        &&& screen::terminal(self.emulator).cols == self.cols
        &&& screen::terminal(self.emulator).limit == SCROLLBACK
        &&& self.cols >= 2
        &&& screen::terminal(self.emulator).cut ==> self.cut
    }

    /// Whether the panel takes output: it has at least two rows and three
    /// columns, no more columns than a terminal has, and no wide character of it
    /// was cut.
    pub open spec fn ready(&self) -> bool {
        &&& self@.terminal.rows >= 2
        &&& 3 <= self@.terminal.cols <= screen::MAX_COLS
        &&& !self@.cut
    }

    /// Whether a panel is this one after it was given a size of at least one row
    /// and two columns, and whether the size is a new one.
    pub open spec fn resized_to(
        &self,
        rows: u16,
        cols: u16,
        after: ShellPanel,
        changed: Option<(u16, u16)>,
    ) -> bool {
        let rows = if rows < 1 {
            1u16
        } else {
            rows
        };
        let cols = if cols < 2 {
            2u16
        } else {
            cols
        };
        if rows == self@.terminal.rows && cols == self@.terminal.cols {
            changed is None && after@ == self@
        } else {
            &&& changed == Some((rows, cols))
            &&& after@.terminal == screen::after_resize(self.emulator(), rows, cols)
            &&& after@.terminal.rows == rows
            &&& after@.terminal.cols == cols
            &&& after@.osc == self@.osc
            &&& after@.user_scrollback == self@.user_scrollback
            &&& after@.cut == (self@.cut || self@.terminal.is_cut_at(cols))
        }
    }

    /// What `wf` says of the terminal.
    pub proof fn lemma_wf(&self)
        requires
            self.wf(),
        ensures
            self@.terminal == screen::terminal(self.emulator()),
            self@.terminal.sound(),
            self@.terminal.cols >= 2,
            self@.terminal.limit == SCROLLBACK,
    {
    }

    /// A panel of eight rows and eighty columns with nothing on it.
    pub fn new() -> (panel: ShellPanel)
        ensures
            panel.wf(),
            panel@.terminal.rows == 8,
            panel@.terminal.cols == 80,
            panel@.terminal.is_blank(),
            panel@.osc == OscView::start(),
            panel@.user_scrollback == 0,
            !panel@.cut,
            panel.ready(),
    {
        ShellPanel {
            emulator: Emulator::new(8, 80, SCROLLBACK),
            osc: OscTracker::default(),
            rows: 8,
            cols: 80,
            user_scrollback: 0,
            cut: false,
        }
    }

    /// Whether the panel takes output.
    pub fn takes_output(&self) -> (yes: bool)
        requires
            self.wf(),
        ensures
            yes == self.ready(),
    {
        self.rows >= 2 && 3 <= self.cols && self.cols <= screen::MAX_COLS && !self.cut
    }

    /// Takes output of the shell.
    pub fn process_output(&mut self, bytes: &[u8])
        requires
            old(self).wf(),
            old(self).ready(),
        ensures
            final(self).wf(),
            final(self).ready(),
            final(self)@.osc == old(self)@.osc.after(bytes@),
            final(self)@.terminal == screen::after_output(old(self).emulator(), bytes@),
            final(self)@.terminal.rows == old(self)@.terminal.rows,
            final(self)@.terminal.cols == old(self)@.terminal.cols,
            final(self)@.user_scrollback == old(self)@.user_scrollback,
    {
        self.osc.process(bytes);
        self.emulator.process(bytes);
    }

    /// Takes all output that is there, and keeps the view at the end of it
    /// unless the user has scrolled back. Says whether there was any.
    pub fn drain(&mut self, chunks: &Vec<Vec<u8>>) -> (changed: bool)
        requires
            old(self).wf(),
            old(self).ready(),
        ensures
            final(self).wf(),
            final(self).ready(),
            changed == (chunks@.len() > 0),
            final(self)@.osc == old(self)@.osc.after(flattened(chunks@)),
            final(self)@.terminal.rows == old(self)@.terminal.rows,
            final(self)@.terminal.cols == old(self)@.terminal.cols,
            final(self)@.user_scrollback == old(self)@.user_scrollback,
            changed && old(self)@.user_scrollback == 0 ==> final(self)@.terminal.offset == 0,
            !changed ==> final(self)@ == old(self)@,
            drained(
                old(self).emulator(),
                final(self).emulator(),
                chunks@,
                old(self)@.user_scrollback == 0,
            ),
    {
        let mut i: usize = 0;
        let ghost at_end = self@.user_scrollback == 0;
        let ghost mut chain = seq![self.emulator];
        let ghost start = self@.osc;
        while i < chunks.len()
            invariant
                i <= chunks@.len(),
                self.wf(),
                self.ready(),
                start == old(self)@.osc,
                self@.osc == start.after(flattened(chunks@.take(i as int))),
                self@.terminal.rows == old(self)@.terminal.rows,
                self@.terminal.cols == old(self)@.terminal.cols,
                self@.user_scrollback == old(self)@.user_scrollback,
                i > 0 && self@.user_scrollback == 0 ==> self@.terminal.offset == 0,
                i == 0 ==> *self == *old(self),
                at_end == (old(self)@.user_scrollback == 0),
                chain.len() == i + 1,
                chain[0] == old(self).emulator(),
                chain[i as int] == self.emulator,
                forall|k: int|
                    0 <= k < i ==> screen::terminal(#[trigger] chain[k + 1]) == shown_after(
                        chain[k],
                        chunks@[k]@,
                        at_end,
                    ),
            decreases chunks@.len() - i,
        {
            let ghost upto = chunks@.take(i as int);
            let ghost next = chunks@.take(i + 1);
            proof {
                assert(next.drop_last() =~= upto);
                crate::osc::pieces_do_not_matter(start, flattened(upto), chunks@[i as int]@);
            }
            self.process_output(chunks[i].as_slice());
            if self.user_scrollback == 0 {
                self.emulator.set_scrollback(0);
            }
            proof {
                let longer = chain.push(self.emulator);
                assert forall|k: int| 0 <= k < i + 1 implies screen::terminal(
                    #[trigger] longer[k + 1],
                ) == shown_after(longer[k], chunks@[k]@, at_end) by {
                    if k < i {
                        assert(screen::terminal(chain[k + 1]) == shown_after(
                            chain[k],
                            chunks@[k]@,
                            at_end,
                        ));
                    }
                }
                chain = longer;
            }
            i = i + 1;
        }
        proof {
            assert(chunks@.take(chunks@.len() as int) =~= chunks@);
            assert(is_chain(chain, old(self).emulator(), self.emulator(), chunks@, at_end));
        }
        chunks.len() > 0
    }

    /// The directories that the shell reported and that were not taken yet.
    pub fn cwd_candidates(&self) -> (candidates: Vec<String>)
        ensures
            text::texts(candidates@) == self@.osc.candidates,
    {
        text::copy_all(&self.osc.cwd_candidates)
    }

    /// The directory that the shell was last in, as far as the reported paths
    /// are directories.
    pub fn take_cwd_update(&mut self, is_directory: &Vec<bool>) -> (update: Option<String>)
        requires
            old(self).wf(),
        ensures
            final(self).wf(),
            text::maybe(update) == old(self)@.osc.directory(is_directory@),
            final(self)@ == (PanelView {
                osc: OscView { candidates: Seq::empty(), ..old(self)@.osc },
                ..old(self)@
            }),
    {
        self.osc.take_cwd_update(is_directory)
    }

    pub fn take_title_update(&mut self) -> (update: Option<String>)
        requires
            old(self).wf(),
        ensures
            final(self).wf(),
            text::maybe(update) == old(self)@.osc.title,
            final(self)@ == (PanelView {
                osc: OscView { title: None, ..old(self)@.osc },
                ..old(self)@
            }),
    {
        self.osc.take_title_update()
    }

    pub fn take_clipboard_update(&mut self) -> (update: Option<String>)
        requires
            old(self).wf(),
        ensures
            final(self).wf(),
            text::maybe(update) == old(self)@.osc.clipboard,
            final(self)@ == (PanelView {
                osc: OscView { clipboard: None, ..old(self)@.osc },
                ..old(self)@
            }),
    {
        self.osc.take_clipboard_update()
    }

    /// Gives the terminal another size, of at least one row of two columns.
    /// Returns the new size where it changed, for the shell to be told.
    pub fn resize(&mut self, rows: u16, cols: u16) -> (changed: Option<(u16, u16)>)
        requires
            old(self).wf(),
        ensures
            final(self).wf(),
            old(self).resized_to(rows, cols, *final(self), changed),
    {
        let rows: u16 = if rows < 1 {
            1
        } else {
            rows
        };
        let cols: u16 = if cols < 2 {
            2
        } else {
            cols
        };
        if self.rows == rows && self.cols == cols {
            return None;
        }
        self.cut = self.cut || self.emulator.cut_at(cols);
        self.rows = rows;
        self.cols = cols;
        self.emulator.set_size(rows, cols);
        Some((rows, cols))
    }

    fn last_used(&self, row: u16) -> (last: Option<u16>)
        requires
            self.wf(),
        ensures
            last == last_used_col(self@.terminal, row, self@.terminal.cols),
    {
        let mut cols: u16 = self.cols;
        while cols > 0
            invariant
                cols <= self@.terminal.cols,
                last_used_col(self@.terminal, row, self@.terminal.cols) == last_used_col(
                    self@.terminal,
                    row,
                    cols,
                ),
            decreases cols,
        {
            let col: u16 = cols - 1;
            if let Some(cell) = self.emulator.cell(row, col) {
                if !cell.continuation && (!cell.contents.as_str().is_empty()
                    || !cell.style.is_default()) {
                    return Some(
                        if cell.wide {
                            cols
                        } else {
                            col
                        },
                    );
                }
            }
            cols = col;
        }
        None
    }

    /// A row in view as runs of one style.
    pub fn styled_row(&self, row: u16) -> (out: Vec<TerminalSpan>)
        requires
            self.wf(),
        ensures
            spans::terminal_spans_view(out@) == styled_row(self@.terminal, row),
    {
        let mut out: Vec<TerminalSpan> = Vec::new();
        proof {
            assert(spans::terminal_spans_view(out@) =~= Seq::empty());
        }
        let last = match self.last_used(row) {
            Some(last) => last,
            None => {
                return out;
            },
        };
        let end: u16 = if last < self.cols {
            last + 1
        } else {
            self.cols
        };
        let mut col: u16 = 0;
        while col < end
            invariant
                col <= end,
                spans::terminal_spans_view(out@) == spans::runs(
                    shown_cells(self@.terminal, row, col as int),
                ),
            decreases end - col,
        {
            let ghost before = shown_cells(self@.terminal, row, col as int);
            let ghost after = shown_cells(self@.terminal, row, col + 1);
            if let Some(cell) = self.emulator.cell(row, col) {
                if !cell.continuation {
                    proof {
                        assert(after.drop_last() =~= before);
                    }
                    if cell.contents.as_str().is_empty() {
                        spans::extend_terminal_spans(&mut out, " ", cell.style);
                    } else {
                        spans::extend_terminal_spans(&mut out, &cell.contents, cell.style);
                    }
                }
            }
            col = col + 1;
        }
        out
    }

    /// All rows in view as runs of one style.
    pub fn styled_rows(&self) -> (out: Vec<Vec<TerminalSpan>>)
        requires
            self.wf(),
        ensures
            out@.len() == self@.terminal.rows,
            forall|row: int|
                0 <= row < out@.len() ==> spans::terminal_spans_view((#[trigger] out@[row])@)
                    == styled_row(self@.terminal, row as u16),
    {
        let mut out: Vec<Vec<TerminalSpan>> = Vec::new();
        let mut row: u16 = 0;
        while row < self.rows
            invariant
                self.wf(),
                row <= self@.terminal.rows,
                out@.len() == row,
                forall|r: int|
                    0 <= r < row ==> spans::terminal_spans_view((#[trigger] out@[r])@)
                        == styled_row(self@.terminal, r as u16),
            decreases self@.terminal.rows - row,
        {
            out.push(self.styled_row(row));
            row = row + 1;
        }
        out
    }

    /// The text of a row in view.
    pub fn row_text(&self, row: u16) -> (line: Option<String>)
        requires
            self.wf(),
        ensures
            text::maybe(line) == (if row < self@.terminal.rows {
                Some(self@.terminal.lines[self@.terminal.top() + row])
            } else {
                None
            }),
    {
        let rows = self.emulator.row_texts(self.cols);
        proof {
            assert(text::texts(rows@).len() == rows@.len());
        }
        if (row as usize) < rows.len() {
            proof {
                assert(text::texts(rows@)[row as int] == rows@[row as int]@);
            }
            Some(rows[row as usize].clone())
        } else {
            None
        }
    }

    fn max_scrollback(&mut self) -> (rows: usize)
        requires
            old(self).wf(),
        ensures
            final(self).wf(),
            final(self)@ == old(self)@,
            rows == old(self)@.terminal.history(),
    {
        let current = self.emulator.scrollback();
        self.emulator.set_scrollback(usize::MAX);
        let max = self.emulator.scrollback();
        self.emulator.set_scrollback(current);
        max
    }

    /// The first row in view, counted from the oldest one that is kept.
    pub fn visible_top_row(&mut self) -> (row: usize)
        requires
            old(self).wf(),
        ensures
            final(self).wf(),
            final(self)@ == old(self)@,
            row == old(self)@.terminal.top(),
    {
        let max = self.max_scrollback();
        max.saturating_sub(self.emulator.scrollback())
    }

    /// Brings a row, counted from the oldest one that is kept, to the top of
    /// the view, as far as the terminal can be scrolled.
    pub fn scroll_to_global_row(&mut self, row: usize)
        requires
            old(self).wf(),
        ensures
            final(self).wf(),
            final(self)@.osc == old(self)@.osc,
            final(self)@.terminal == old(self)@.terminal.scrolled_to(
                if row < old(self)@.terminal.history() {
                    (old(self)@.terminal.history() - row) as nat
                } else {
                    0
                },
            ),
            final(self)@.user_scrollback == final(self)@.terminal.offset,
            final(self)@.cut == old(self)@.cut,
    {
        let max = self.max_scrollback();
        let offset = max.saturating_sub(row);
        self.emulator.set_scrollback(offset);
        self.user_scrollback = self.emulator.scrollback();
    }

    /// Scrolls back by so many rows, or forward by a negative number of them.
    pub fn scroll(&mut self, amount: isize)
        requires
            old(self).wf(),
        ensures
            final(self).wf(),
            final(self)@.osc == old(self)@.osc,
            final(self)@.terminal == old(self)@.terminal.scrolled_to(
                if old(self)@.terminal.offset + amount >= 0 {
                    (old(self)@.terminal.offset + amount) as nat
                } else {
                    0
                },
            ),
            final(self)@.user_scrollback == final(self)@.terminal.offset,
            final(self)@.cut == old(self)@.cut,
    {
        let current = self.emulator.scrollback();
        let next: usize = if amount < 0 {
            let back: usize = (-(amount + 1)) as usize;
            current.saturating_sub(back).saturating_sub(1)
        } else {
            current.saturating_add(amount as usize)
        };
        self.emulator.set_scrollback(next);
        self.user_scrollback = self.emulator.scrollback();
    }

    /// The texts of all rows, the oldest one that is kept first.
    pub fn all_row_text(&mut self) -> (out: Vec<String>)
        requires
            old(self).wf(),
        ensures
            final(self).wf(),
            final(self)@ == old(self)@,
            text::texts(out@) == old(self)@.terminal.lines,
    {
        let current = self.emulator.scrollback();
        let max = self.max_scrollback();
        let (rows, cols) = self.emulator.size();
        let total: usize = max + rows as usize;
        let mut out: Vec<String> = Vec::new();
        let ghost start = self@;
        let ghost lines = self@.terminal.lines;
        let mut global_row: usize = 0;
        while global_row < total
            invariant
                self.wf(),
                start.terminal.sound(),
                self@.osc == start.osc,
                self@.user_scrollback == start.user_scrollback,
                self@.cut == start.cut,
                self@.terminal == start.terminal.scrolled_to(self@.terminal.offset),
                lines == start.terminal.lines,
                cols == start.terminal.cols,
                rows == start.terminal.rows,
                max == start.terminal.history(),
                total == lines.len(),
                global_row <= total,
                out@.len() == global_row,
                forall|i: int| 0 <= i < global_row ==> (#[trigger] out@[i])@ == lines[i],
            decreases total - global_row,
        {
            let top: usize = if global_row < max {
                global_row
            } else {
                max
            };
            let offset = max.saturating_sub(top);
            self.emulator.set_scrollback(offset);
            let local_row = global_row.saturating_sub(top);
            let visible = self.emulator.row_texts(cols);
            proof {
                assert(self@.terminal.top() == top);
                assert(text::texts(visible@).len() == rows);
                assert(text::texts(visible@)[local_row as int] == visible@[local_row as int]@);
                assert(self@.terminal.view_lines()[local_row as int] == lines[top + local_row]);
            }
            out.push(visible[local_row].clone());
            global_row = global_row + 1;
        }
        self.emulator.set_scrollback(current);
        proof {
            assert(text::texts(out@) =~= lines);
        }
        out
    }

    /// All places where a text stands, from the oldest row that is kept on.
    pub fn search_matches(&mut self, needle: &str) -> (found: Vec<TerminalSearchMatch>)
        requires
            old(self).wf(),
        ensures
            final(self).wf(),
            final(self)@ == old(self)@,
            found@ == found_in_rows(
                old(self)@.terminal.lines,
                needle@,
                old(self)@.terminal.lines.len(),
            ),
    {
        let rows = self.all_row_text();
        let ghost lines = self@.terminal.lines;
        let mut found: Vec<TerminalSearchMatch> = Vec::new();
        proof {
            assert(text::texts(rows@).len() == rows@.len());
        }
        for row in 0..rows.len()
            invariant
                text::texts(rows@) == lines,
                rows@.len() == lines.len(),
                found@ == found_in_rows(lines, needle@, row as nat),
        {
            let ranges = terminal_line_matches(&rows[row], needle);
            let ghost before = found@;
            let ghost make = |r: (usize, usize)|
                TerminalSearchMatch { row, start: r.0, end: r.1 };
            proof {
                assert(text::texts(rows@)[row as int] == rows@[row as int]@);
                assert(before + ranges@.take(0).map_values(make) =~= before);
            }
            for i in 0..ranges.len()
                invariant
                    make == (|r: (usize, usize)|
                        TerminalSearchMatch { row, start: r.0, end: r.1 }),
                    found@ == before + ranges@.take(i as int).map_values(make),
            {
                let (start, end) = ranges[i];
                found.push(TerminalSearchMatch { row, start, end });
                proof {
                    assert(found@ =~= before + ranges@.take(i + 1).map_values(make));
                }
            }
            proof {
                assert(ranges@.take(ranges@.len() as int) =~= ranges@);
                assert(found@ =~= found_in_rows(lines, needle@, (row + 1) as nat));
            }
        }
        found
    }

    pub fn cursor(&self) -> (at: (u16, u16))
        ensures
            at == self@.terminal.cursor,
    {
        self.emulator.cursor()
    }

    pub fn scrollback(&self) -> (rows: usize)
        ensures
            rows == self@.terminal.offset,
    {
        self.emulator.scrollback()
    }

    pub fn size(&self) -> (size: (u16, u16))
        ensures
            size == (self@.terminal.rows, self@.terminal.cols),
    {
        self.emulator.size()
    }

    pub fn alternate_screen(&self) -> (yes: bool)
        ensures
            yes == self@.terminal.alternate_screen,
    {
        self.emulator.alternate_screen()
    }

    pub fn bracketed_paste(&self) -> (yes: bool)
        ensures
            yes == self@.terminal.bracketed_paste,
    {
        self.emulator.bracketed_paste()
    }

    pub fn mouse_protocol_mode(&self) -> (mode: MouseProtocolMode)
        ensures
            mode == self@.terminal.mouse_mode,
    {
        self.emulator.mouse_protocol_mode()
    }

    pub fn hide_cursor(&self) -> (yes: bool)
        ensures
            yes == self@.terminal.hide_cursor,
    {
        self.emulator.hide_cursor()
    }

    /// What is to be written to the shell for a key; nothing for a key that has
    /// no sequence.
    pub fn send_key(&self, key: KeyEvent) -> (bytes: Option<Vec<u8>>)
        ensures
            bytes is Some <==> keys::key_text(key, self@.terminal.application_cursor) is Some,
            bytes matches Some(b) ==> b@ == vstd::utf8::encode_utf8(
                keys::key_text(key, self@.terminal.application_cursor)->0,
            ),
    {
        keys::key_to_bytes(key, self.emulator.application_cursor())
    }

    /// What is to be written to the shell for pasted text: the text, in brackets
    /// where the shell asked for that.
    pub fn send_paste(&self, text: &str) -> (bytes: Vec<u8>)
        ensures
            bytes@ == pasted(text@, self@.terminal.bracketed_paste),
    {
        paste_bytes(text, self.emulator.bracketed_paste())
    }

    /// What is to be written to the shell for a text.
    pub fn send_text(&self, text: &str) -> (bytes: Vec<u8>)
        ensures
            bytes@ == vstd::utf8::encode_utf8(text@),
    {
        text::bytes_of(text)
    }

    /// Forgets all output; what the shell reported stays.
    pub fn clear(&mut self)
        requires
            old(self).wf(),
        ensures
            final(self).wf(),
            final(self)@.terminal.rows == old(self)@.terminal.rows,
            final(self)@.terminal.cols == old(self)@.terminal.cols,
            final(self)@.terminal.is_blank(),
            final(self)@.osc == old(self)@.osc,
            final(self)@.user_scrollback == 0,
            !final(self)@.cut,
    {
        self.emulator = Emulator::new(self.rows, self.cols, SCROLLBACK);
        self.user_scrollback = 0;
        self.cut = false;
    }

    /// What is to be written to the shell for a mouse event. Nothing where the
    /// terminal program does not take mouse events at all, and no bytes for an
    /// event that it did not ask for.
    pub fn send_mouse_event(
        &self,
        kind: MouseEventKind,
        row: u16,
        col: u16,
        modifiers: KeyModifiers,
    ) -> (bytes: Option<Vec<u8>>)
        ensures
            bytes is Some <==> self@.terminal.mouse_mode != MouseProtocolMode::Off,
            bytes matches Some(b) ==> b@ == mouse_report(
                self@.terminal,
                kind,
                row,
                col,
                modifiers,
            ),
    {
        let mode = self.emulator.mouse_protocol_mode();
        if mode == MouseProtocolMode::Off {
            return None;
        }
        let encoding = self.emulator.mouse_protocol_encoding();
        match mouse::mouse_event_to_bytes(kind, row, col, modifiers, mode, encoding) {
            Some(bytes) => Some(bytes),
            None => Some(Vec::new()),
        }
    }

    /// What is to be written to the shell for a click with the left button.
    pub fn send_mouse_click(&self, row: u16, col: u16) -> (bytes: Option<Vec<u8>>)
        ensures
            bytes is Some <==> self@.terminal.mouse_mode != MouseProtocolMode::Off,
            bytes matches Some(b) ==> b@ == mouse_report(
                self@.terminal,
                MouseEventKind::Down(MouseButton::Left),
                row,
                col,
                no_modifiers(),
            ) + mouse_report(
                self@.terminal,
                MouseEventKind::Up(MouseButton::Left),
                row,
                col,
                no_modifiers(),
            ),
    {
        let none = KeyModifiers::none();
        match self.send_mouse_event(MouseEventKind::Down(MouseButton::Left), row, col, none) {
            None => None,
            Some(down) => {
                let mut bytes = down;
                if let Some(up) = self.send_mouse_event(
                    MouseEventKind::Up(MouseButton::Left),
                    row,
                    col,
                    none,
                ) {
                    let mut up = up;
                    bytes.append(&mut up);
                }
                Some(bytes)
            },
        }
    }

    /// What is to be written to the shell for a turn of the mouse wheel.
    pub fn send_mouse_wheel(&self, row: u16, col: u16, up: bool) -> (bytes: Option<Vec<u8>>)
        ensures
            bytes is Some <==> self@.terminal.mouse_mode != MouseProtocolMode::Off,
            bytes matches Some(b) ==> b@ == mouse_report(
                self@.terminal,
                if up {
                    MouseEventKind::ScrollUp
                } else {
                    MouseEventKind::ScrollDown
                },
                row,
                col,
                no_modifiers(),
            ),
    {
        let kind = if up {
            MouseEventKind::ScrollUp
        } else {
            MouseEventKind::ScrollDown
        };
        self.send_mouse_event(kind, row, col, KeyModifiers::none())
    }
}

/// How a shell can be made to report its directory.
#[derive(Debug, Clone, Copy, PartialEq, Eq, Structural)]
pub enum ShellIntegration {
    /// By the command that it runs before each prompt.
    Bash,
    /// By start-up files of its own.
    Zsh,
    /// Not at all.
    Plain,
}

/// The integration of the shell program at a path.
pub open spec fn integration_of(shell: Seq<char>, platform: Platform) -> ShellIntegration {
    let name = match components::file_name_text(shell, platform) {
        Some(name) => name,
        None => shell,
    };
    if name == "bash"@ {
        ShellIntegration::Bash
    } else if name == "zsh"@ {
        ShellIntegration::Zsh
    } else {
        ShellIntegration::Plain
    }
}

/// How the shell program at a path is made to report its directory.
pub fn shell_integration(shell: &str, platform: Platform) -> (integration: ShellIntegration)
    ensures
        integration == integration_of(shell@, platform),
{
    let name = match components::file_name_of_text(shell, platform) {
        Some(name) => name,
        None => shell.to_owned(),
    };
    if text::same(&name, "bash") {
        ShellIntegration::Bash
    } else if text::same(&name, "zsh") {
        ShellIntegration::Zsh
    } else {
        ShellIntegration::Plain
    }
}

/// The shell program: the one that the environment names, or else the usual one.
pub fn shell_program(configured: Option<String>, platform: Platform) -> (program: String)
    ensures
        program@ == match (configured, platform) {
            (Some(program), _) => program@,
            (None, Platform::Unix) => "/bin/sh"@,
            (None, Platform::Windows) => "cmd.exe"@,
        },
{
    match (configured, platform) {
        (Some(program), _) => program,
        (None, Platform::Unix) => "/bin/sh".to_owned(),
        (None, Platform::Windows) => "cmd.exe".to_owned(),
    }
}

/// The command with which bash reports its directory.
pub open spec fn bash_hook() -> Seq<char> {
    "printf '\\033]7;file://%s%s\\007' \"${HOSTNAME:-localhost}\" \"$PWD\""@
}

/// The command that bash runs before each prompt, in front of an existing one
/// that is not blank.
pub fn bash_prompt_command(existing: Option<String>) -> (command: String)
    ensures
        command@ == match existing {
            Some(own) => if text::trimmed(own@).len() == 0 {
                bash_hook()
            } else {
                bash_hook() + "; "@ + own@
            },
            None => bash_hook(),
        },
{
    let mut command = "printf '\\033]7;file://%s%s\\007' \"${HOSTNAME:-localhost}\" \"$PWD\"".to_owned();
    if let Some(own) = existing {
        if !text::is_blank(&own) {
            command.append("; ");
            command.append(&own);
        }
    }
    command
}

/// The directory in which zsh would have looked for its start-up files.
pub fn zsh_original_dir(zdotdir: Option<String>, home: Option<String>) -> (dir: String)
    ensures
        dir@ == match zdotdir {
            Some(dir) => dir@,
            None => match home {
                Some(home) => home@,
                None => "."@,
            },
        },
{
    match zdotdir {
        Some(dir) => dir,
        None => match home {
            Some(home) => home,
            None => ".".to_owned(),
        },
    }
}

/// The environment file that is put in place of the user's own, which it reads.
pub fn zsh_env_file() -> (contents: &'static str)
    ensures
        contents@ == "if [ -n \"${TSCODE_ORIGINAL_ZDOTDIR:-}\" ] && [ -r \"${TSCODE_ORIGINAL_ZDOTDIR}/.zshenv\" ]; then\n  source \"${TSCODE_ORIGINAL_ZDOTDIR}/.zshenv\"\nfi\n"@,
{
    "if [ -n \"${TSCODE_ORIGINAL_ZDOTDIR:-}\" ] && [ -r \"${TSCODE_ORIGINAL_ZDOTDIR}/.zshenv\" ]; then\n  source \"${TSCODE_ORIGINAL_ZDOTDIR}/.zshenv\"\nfi\n"
}

/// The start-up file that is put in place of the user's own, which it reads; it
/// makes the shell report its directory before each prompt.
pub fn zsh_rc_file() -> (contents: &'static str)
    ensures
        contents@ == "if [ -n \"${TSCODE_ORIGINAL_ZDOTDIR:-}\" ] && [ -r \"${TSCODE_ORIGINAL_ZDOTDIR}/.zshrc\" ]; then\n  source \"${TSCODE_ORIGINAL_ZDOTDIR}/.zshrc\"\nfi\n\n__tscode_osc7() {\n  printf '\\033]7;file://%s%s\\007' \"${HOST:-localhost}\" \"$PWD\"\n}\n\nautoload -Uz add-zsh-hook 2>/dev/null\nif whence add-zsh-hook >/dev/null 2>&1; then\n  add-zsh-hook precmd __tscode_osc7\nelse\n  precmd_functions+=(__tscode_osc7)\nfi\n__tscode_osc7\n"@,
{
    "if [ -n \"${TSCODE_ORIGINAL_ZDOTDIR:-}\" ] && [ -r \"${TSCODE_ORIGINAL_ZDOTDIR}/.zshrc\" ]; then\n  source \"${TSCODE_ORIGINAL_ZDOTDIR}/.zshrc\"\nfi\n\n__tscode_osc7() {\n  printf '\\033]7;file://%s%s\\007' \"${HOST:-localhost}\" \"$PWD\"\n}\n\nautoload -Uz add-zsh-hook 2>/dev/null\nif whence add-zsh-hook >/dev/null 2>&1; then\n  add-zsh-hook precmd __tscode_osc7\nelse\n  precmd_functions+=(__tscode_osc7)\nfi\n__tscode_osc7\n"
}

/// The name of the directory for start-up files.
pub open spec fn integration_dir(label: Seq<char>, process: u32, nanos: nat) -> Seq<char> {
    "tscode-"@ + label + "-"@ + text::decimal(process as nat) + "-"@ + text::decimal(nanos)
}

pub fn integration_dir_name(label: &str, process: u32, nanos: u128) -> (name: String)
    ensures
        name@ == integration_dir(label@, process, nanos as nat),
{
    let mut name = "tscode-".to_owned();
    name.append(label);
    name.append("-");
    text::push_decimal(&mut name, process as u64);
    name.append("-");
    text::push_long_decimal(&mut name, nanos);
    name
}

/// All bytes of pieces of output.
pub open spec fn flattened(chunks: Seq<Vec<u8>>) -> Seq<u8>
    decreases chunks.len(),
{
    if chunks.len() == 0 {
        Seq::empty()
    } else {
        flattened(chunks.drop_last()) + chunks.last()@
    }
}

pub open spec fn no_modifiers() -> KeyModifiers {
    KeyModifiers { shift: false, control: false, alt: false }
}

/// What a terminal program reads for a mouse event; no bytes for an event that
/// it did not ask for.
pub open spec fn mouse_report(
    terminal: Terminal,
    kind: MouseEventKind,
    row: u16,
    col: u16,
    modifiers: KeyModifiers,
) -> Seq<u8> {
    match mouse::mouse_bytes(
        kind,
        row,
        col,
        modifiers,
        terminal.mouse_mode,
        terminal.mouse_encoding,
    ) {
        Some(bytes) => bytes,
        None => Seq::empty(),
    }
}

/// What a terminal program reads for pasted text.
pub open spec fn pasted(text: Seq<char>, bracketed: bool) -> Seq<u8> {
    if bracketed {
        vstd::utf8::encode_utf8("\x1b[200~"@ + text + "\x1b[201~"@)
    } else {
        vstd::utf8::encode_utf8(text)
    }
}

/// What is written to a terminal program for pasted text.
pub fn paste_bytes(text: &str, bracketed: bool) -> (bytes: Vec<u8>)
    ensures
        bytes@ == pasted(text@, bracketed),
{
    if bracketed {
        let mut whole = "\x1b[200~".to_owned();
        whole.append(text);
        whole.append("\x1b[201~");
        text::bytes_of(&whole)
    } else {
        text::bytes_of(text)
    }
}

/// The character columns at which a text starts and ends in a line of the
/// terminal.
pub fn terminal_line_matches(line: &str, needle: &str) -> (found: Vec<(usize, usize)>)
    ensures
        found@ == search::ranges(line@, needle@),
{
    search::match_ranges(line, needle)
}

} // verus!
