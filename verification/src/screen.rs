//! The screen of a terminal emulator.

use vstd::prelude::*;

use crate::mouse::MouseProtocolEncoding;
use crate::mouse::MouseProtocolMode;
use crate::text;

use ::vt100::Color;

verus! {

/// A color as a terminal program names it.
#[derive(Debug, Clone, Copy, PartialEq, Eq, Structural)]
pub enum TerminalColor {
    Default,
    Idx(u8),
    Rgb(u8, u8, u8),
}

/// How a cell is shown.
#[derive(Debug, Clone, Copy, PartialEq, Eq, Structural)]
pub struct TerminalStyle {
    pub fg: TerminalColor,
    pub bg: TerminalColor,
    pub bold: bool,
    pub dim: bool,
    pub italic: bool,
    pub underline: bool,
    pub inverse: bool,
}

/// The style of a cell that nothing was written to.
pub open spec fn default_style() -> TerminalStyle {
    TerminalStyle {
        fg: TerminalColor::Default,
        bg: TerminalColor::Default,
        bold: false,
        dim: false,
        italic: false,
        underline: false,
        inverse: false,
    }
}

impl Default for TerminalStyle {
    fn default() -> (style: TerminalStyle)
        ensures
            style == default_style(),
    {
        TerminalStyle {
            fg: TerminalColor::Default,
            bg: TerminalColor::Default,
            bold: false,
            dim: false,
            italic: false,
            underline: false,
            inverse: false,
        }
    }
}

impl TerminalStyle {
    pub fn is_default(self) -> (yes: bool)
        ensures
            yes == (self == default_style()),
    {
        let plain = TerminalStyle::default();
        self == plain
    }
}

/// A cell of the screen. A wide character takes two cells, of which the second
/// is a continuation.
#[derive(Debug, Clone, PartialEq, Eq)]
pub struct TerminalCell {
    pub contents: String,
    pub wide: bool,
    pub continuation: bool,
    pub style: TerminalStyle,
}

pub struct CellView {
    pub contents: Seq<char>,
    pub wide: bool,
    pub continuation: bool,
    pub style: TerminalStyle,
}

impl View for TerminalCell {
    type V = CellView;

    open spec fn view(&self) -> CellView {
        CellView {
            contents: self.contents@,
            wide: self.wide,
            continuation: self.continuation,
            style: self.style,
        }
    }
}

/// A row that nothing was written to.
pub open spec fn blank_row(cols: u16) -> Seq<CellView> {
    Seq::new(
        cols as nat,
        |i: int|
            CellView {
                contents: Seq::empty(),
                wide: false,
                continuation: false,
                style: default_style(),
            },
    )
}

/// Whether a wide character begins in a column of one of the rows of a grid.
pub open spec fn wide_in_column(grid: Seq<Seq<CellView>>, col: int) -> bool {
    exists|row: int| 0 <= row < grid.len() && (#[trigger] grid[row])[col].wide
}

/// What a terminal emulator holds: the rows of the main and of the alternate
/// grid; all rows of the one in use, those that were scrolled off the screen
/// first, as cells and as text; how many rows the view is scrolled back; and the
/// modes that the terminal program set. `cut` says that in one of the grids a
/// half of a wide character may stand without the other half.
pub struct Terminal {
    pub rows: u16,
    pub cols: u16,
    pub main: Seq<Seq<CellView>>,
    pub alternate: Seq<Seq<CellView>>,
    pub cut: bool,
    pub cells: Seq<Seq<CellView>>,
    pub lines: Seq<Seq<char>>,
    pub offset: nat,
    pub limit: nat,
    pub cursor: (u16, u16),
    pub alternate_screen: bool,
    pub application_cursor: bool,
    pub bracketed_paste: bool,
    pub hide_cursor: bool,
    pub mouse_mode: MouseProtocolMode,
    pub mouse_encoding: MouseProtocolEncoding,
}

impl Terminal {
    /// The number of rows that were scrolled off the screen and are kept.
    pub open spec fn history(self) -> int {
        self.lines.len() - self.rows
    }

    /// What holds of every terminal. A cell holds at most 22 bytes of text.
    pub open spec fn sound(self) -> bool {
        &&& self.rows >= 1
        &&& self.cols >= 1
        &&& self.cells.len() == self.lines.len()
        &&& self.offset <= self.history() <= self.limit
        &&& forall|row: int, col: int|
            0 <= row < self.cells.len() && 0 <= col < self.cells[row].len() ==> (
            #[trigger] self.cells[row][col]).contents.len() <= 22
        &&& self.main.len() == self.rows
        &&& self.alternate.len() == self.rows
        &&& forall|row: int|
            0 <= row < self.rows ==> (#[trigger] self.main[row]).len() == self.cols
        &&& forall|row: int|
            0 <= row < self.rows ==> (#[trigger] self.alternate[row]).len() == self.cols
        &&& self.cells.skip(self.history()) == if self.alternate_screen {
            self.alternate
        } else {
            self.main
        }
    }

    /// Whether the emulator interprets any output: it needs two rows to wrap a
    /// line, three columns for the widest character, columns that a tab does not
    /// leave, and wide characters that are whole.
    pub open spec fn takes_output(self) -> bool {
        &&& self.rows >= 2
        &&& 3 <= self.cols <= MAX_COLS
        &&& !self.cut
    }

    /// Whether a number of columns cuts a wide character in two.
    pub open spec fn is_cut_at(self, cols: u16) -> bool {
        &&& 0 < cols < self.cols
        &&& wide_in_column(self.main, cols - 1) || wide_in_column(self.alternate, cols - 1)
    }

    /// Nothing was written to the terminal, nothing was scrolled off, and no mode
    /// is set.
    pub open spec fn is_blank(self) -> bool {
        &&& self.history() == 0
        &&& !self.cut
        &&& forall|i: int| 0 <= i < self.rows ==> (#[trigger] self.lines[i]).len() == 0
        &&& forall|i: int| 0 <= i < self.rows ==> (#[trigger] self.cells[i]) == blank_row(self.cols)
        &&& self.cursor == (0u16, 0u16)
        &&& !self.alternate_screen
        &&& !self.application_cursor
        &&& !self.bracketed_paste
        &&& !self.hide_cursor
        &&& self.mouse_mode == MouseProtocolMode::Off
        &&& self.mouse_encoding == MouseProtocolEncoding::Default
    }

    /// The first row in view.
    pub open spec fn top(self) -> int {
        self.history() - self.offset
    }

    /// The same terminal with the view scrolled back so many rows, or as far
    /// as it goes.
    pub open spec fn scrolled_to(self, rows: nat) -> Terminal {
        Terminal {
            offset: if rows < self.history() {
                rows
            } else {
                self.history() as nat
            },
            ..self
        }
    }

    /// A cell in view.
    pub open spec fn cell(self, row: u16, col: u16) -> Option<CellView> {
        if row < self.rows && col < self.cells[self.top() + row].len() {
            Some(self.cells[self.top() + row][col as int])
        } else {
            None
        }
    }

    /// The texts of the rows in view.
    pub open spec fn view_lines(self) -> Seq<Seq<char>> {
        self.lines.subrange(self.top(), self.top() + self.rows)
    }
}

/// The largest number of columns in which a tab does not overflow.
pub const MAX_COLS: u16 = 65_527;

/// A terminal emulator: the parser of the `vt100` crate.
#[verifier::external_body]
pub struct Emulator {
    parser: vt100::Parser,
}

/// What a terminal emulator holds.
pub uninterp spec fn terminal(emulator: Emulator) -> Terminal;

/// What a terminal emulator holds after `vt100::Parser::process` has read
/// bytes: a function of the emulator and the bytes.
pub uninterp spec fn after_output(emulator: Emulator, bytes: Seq<u8>) -> Terminal;

/// What a terminal emulator holds after `vt100::Screen::set_size`: a function of
/// the emulator and the size.
pub uninterp spec fn after_resize(emulator: Emulator, rows: u16, cols: u16) -> Terminal;

impl Emulator {
    /// Calls `vt100::Parser::new`: a terminal of the given size, with nothing
    /// on it and nothing scrolled off, that keeps at most `limit` rows that are
    /// scrolled off, and in which no mode is set.
    #[verifier::external_body]
    pub(crate) fn new(rows: u16, cols: u16, limit: usize) -> (emulator: Emulator)
        requires
            rows >= 1,
            cols >= 1,
        ensures
            terminal(emulator).sound(),
            terminal(emulator).rows == rows,
            terminal(emulator).cols == cols,
            terminal(emulator).limit == limit,
            terminal(emulator).is_blank(),
    {
        Emulator { parser: vt100::Parser::new(rows, cols, limit) }
    }

    /// Calls `vt100::Parser::process`, which interprets output of a terminal
    /// program. What the emulator then holds is a function of the emulator and
    /// the bytes; the size and the limit stay, and wide characters stay whole.
    /// How the bytes are interpreted is left to the `vt100` crate. It panics on
    /// some bytes with one row, with less than three columns, with so many
    /// columns that a tab overflows, and where a wide character was cut in two.
    #[verifier::external_body]
    pub(crate) fn process(&mut self, bytes: &[u8])
        requires
            terminal(*old(self)).sound(),
            terminal(*old(self)).takes_output(),
        ensures
            terminal(*final(self)) == after_output(*old(self), bytes@),
            terminal(*final(self)).sound(),
            !terminal(*final(self)).cut,
            terminal(*final(self)).rows == terminal(*old(self)).rows,
            terminal(*final(self)).cols == terminal(*old(self)).cols,
            terminal(*final(self)).limit == terminal(*old(self)).limit,
    {
        self.parser.process(bytes)
    }

    /// Calls `vt100::Screen::set_size`. The terminal gets the given size; what
    /// was scrolled off, the scroll position and the modes stay. Wide characters
    /// stay whole, but for those of which the last column is cut off.
    #[verifier::external_body]
    pub(crate) fn set_size(&mut self, rows: u16, cols: u16)
        requires
            terminal(*old(self)).sound(),
            rows >= 1,
            cols >= 1,
        ensures
            terminal(*final(self)) == after_resize(*old(self), rows, cols),
            terminal(*final(self)).sound(),
            !terminal(*old(self)).cut && !terminal(*old(self)).is_cut_at(cols) ==> !terminal(
                *final(self),
            ).cut,
            terminal(*final(self)).rows == rows,
            terminal(*final(self)).cols == cols,
            terminal(*final(self)).limit == terminal(*old(self)).limit,
            terminal(*final(self)).history() == terminal(*old(self)).history(),
            terminal(*final(self)).offset == terminal(*old(self)).offset,
            terminal(*final(self)).alternate_screen == terminal(*old(self)).alternate_screen,
            terminal(*final(self)).application_cursor == terminal(*old(self)).application_cursor,
            terminal(*final(self)).bracketed_paste == terminal(*old(self)).bracketed_paste,
            terminal(*final(self)).hide_cursor == terminal(*old(self)).hide_cursor,
            terminal(*final(self)).mouse_mode == terminal(*old(self)).mouse_mode,
            terminal(*final(self)).mouse_encoding == terminal(*old(self)).mouse_encoding,
    {
        self.parser.screen_mut().set_size(rows, cols)
    }

    /// Calls `vt100::Screen::clone` and, on the copy, `vt100::Parser::process`
    /// with the sequence that puts the main grid in use, which leaves both grids
    /// as they are. The parser of the copy is a new one.
    #[verifier::external_body]
    pub(crate) fn copy_on_main(&self) -> (copy: Emulator)
        requires
            terminal(*self).sound(),
        ensures
            terminal(copy).sound(),
            terminal(copy).rows == terminal(*self).rows,
            terminal(copy).cols == terminal(*self).cols,
            terminal(copy).main == terminal(*self).main,
            !terminal(copy).alternate_screen,
    {
        let mut parser = vt100::Parser::default();
        *parser.screen_mut() = self.parser.screen().clone();
        parser.process(b"\x1b[?47l");
        Emulator { parser }
    }

    /// Calls `vt100::Screen::clone` and, on the copy, `vt100::Parser::process`
    /// with the sequence that puts the alternate grid in use, which leaves both
    /// grids as they are. The parser of the copy is a new one.
    #[verifier::external_body]
    pub(crate) fn copy_on_alternate(&self) -> (copy: Emulator)
        requires
            terminal(*self).sound(),
        ensures
            terminal(copy).sound(),
            terminal(copy).rows == terminal(*self).rows,
            terminal(copy).cols == terminal(*self).cols,
            terminal(copy).alternate == terminal(*self).alternate,
            terminal(copy).alternate_screen,
    {
        let mut parser = vt100::Parser::default();
        *parser.screen_mut() = self.parser.screen().clone();
        parser.process(b"\x1b[?47h");
        Emulator { parser }
    }

    /// Calls `vt100::Screen::set_scrollback`: the view is scrolled back so many
    /// rows, or as far as there are rows that were scrolled off; nothing else
    /// changes.
    #[verifier::external_body]
    pub(crate) fn set_scrollback(&mut self, rows: usize)
        requires
            terminal(*old(self)).sound(),
        ensures
            terminal(*final(self)) == terminal(*old(self)).scrolled_to(rows as nat),
    {
        self.parser.screen_mut().set_scrollback(rows)
    }

    /// Calls `vt100::Screen::scrollback`: how many rows the view is scrolled
    /// back.
    #[verifier::external_body]
    pub(crate) fn scrollback(&self) -> (rows: usize)
        ensures
            rows == terminal(*self).offset,
    {
        self.parser.screen().scrollback()
    }

    /// Calls `vt100::Screen::size`: the number of rows and of columns.
    #[verifier::external_body]
    pub(crate) fn size(&self) -> (size: (u16, u16))
        ensures
            size == (terminal(*self).rows, terminal(*self).cols),
    {
        self.parser.screen().size()
    }

    /// Calls `vt100::Screen::cell` and reads what the cell holds and how it is
    /// shown; there is no cell past the rows in view or past the end of a row.
    #[verifier::external_body]
    pub(crate) fn cell(&self, row: u16, col: u16) -> (found: Option<TerminalCell>)
        ensures
            (match found {
                Some(cell) => Some(cell@),
                None => None,
            }) == terminal(*self).cell(row, col),
    {
        let cell = self.parser.screen().cell(row, col)?;
        let color = |color| match color {
            Color::Default => TerminalColor::Default,
            Color::Idx(i) => TerminalColor::Idx(i),
            Color::Rgb(r, g, b) => TerminalColor::Rgb(r, g, b),
        };
        let (fg, bg) = (color(cell.fgcolor()), color(cell.bgcolor()));
        let (bold, dim, italic) = (cell.bold(), cell.dim(), cell.italic());
        let style = TerminalStyle {
            fg, bg, bold, dim, italic, underline: cell.underline(), inverse: cell.inverse(),
        };
        Some(TerminalCell {
            contents: cell.contents().to_owned(), wide: cell.is_wide(),
            continuation: cell.is_wide_continuation(), style,
        })
    }

    /// Calls `vt100::Screen::rows` for the whole width: the texts of the rows in
    /// view.
    #[verifier::external_body]
    pub(crate) fn row_texts(&self, cols: u16) -> (rows: Vec<String>)
        requires
            cols == terminal(*self).cols,
        ensures
            text::texts(rows@) == terminal(*self).view_lines(),
    {
        self.parser.screen().rows(0, cols).collect()
    }

    /// Calls `vt100::Screen::cursor_position`: the row and the column of the
    /// cursor.
    #[verifier::external_body]
    pub(crate) fn cursor(&self) -> (at: (u16, u16))
        ensures
            at == terminal(*self).cursor,
    {
        self.parser.screen().cursor_position()
    }

    /// Calls `vt100::Screen::alternate_screen`: whether the alternate screen is
    /// in use.
    #[verifier::external_body]
    pub(crate) fn alternate_screen(&self) -> (yes: bool)
        ensures
            yes == terminal(*self).alternate_screen,
    {
        self.parser.screen().alternate_screen()
    }

    /// Calls `vt100::Screen::application_cursor`: whether cursor keys are sent
    /// in application mode.
    #[verifier::external_body]
    pub(crate) fn application_cursor(&self) -> (yes: bool)
        ensures
            yes == terminal(*self).application_cursor,
    {
        self.parser.screen().application_cursor()
    }

    /// Calls `vt100::Screen::bracketed_paste`: whether pasted text is to be
    /// bracketed.
    #[verifier::external_body]
    pub(crate) fn bracketed_paste(&self) -> (yes: bool)
        ensures
            yes == terminal(*self).bracketed_paste,
    {
        self.parser.screen().bracketed_paste()
    }

    /// Calls `vt100::Screen::hide_cursor`: whether the cursor is hidden.
    #[verifier::external_body]
    pub(crate) fn hide_cursor(&self) -> (yes: bool)
        ensures
            yes == terminal(*self).hide_cursor,
    {
        self.parser.screen().hide_cursor()
    }

    /// Calls `vt100::Screen::mouse_protocol_mode`: which mouse events the
    /// terminal program asked for.
    #[verifier::external_body]
    pub(crate) fn mouse_protocol_mode(&self) -> (mode: MouseProtocolMode)
        ensures
            mode == terminal(*self).mouse_mode,
    {
        match self.parser.screen().mouse_protocol_mode() {
            vt100::MouseProtocolMode::None => MouseProtocolMode::Off,
            vt100::MouseProtocolMode::Press => MouseProtocolMode::Press,
            vt100::MouseProtocolMode::PressRelease => MouseProtocolMode::PressRelease,
            vt100::MouseProtocolMode::ButtonMotion => MouseProtocolMode::ButtonMotion,
            vt100::MouseProtocolMode::AnyMotion => MouseProtocolMode::AnyMotion,
        }
    }

    /// Calls `vt100::Screen::mouse_protocol_encoding`: how the terminal program
    /// wants mouse events written.
    #[verifier::external_body]
    pub(crate) fn mouse_protocol_encoding(&self) -> (encoding: MouseProtocolEncoding)
        ensures
            encoding == terminal(*self).mouse_encoding,
    {
        match self.parser.screen().mouse_protocol_encoding() {
            vt100::MouseProtocolEncoding::Default => MouseProtocolEncoding::Default,
            vt100::MouseProtocolEncoding::Utf8 => MouseProtocolEncoding::Utf8,
            vt100::MouseProtocolEncoding::Sgr => MouseProtocolEncoding::Sgr,
        }
    }

    /// Whether a wide character begins in a column of the rows in view of an
    /// emulator that is not scrolled back.
    fn wide_in_view(&self, col: u16) -> (yes: bool)
        requires
            terminal(*self).sound(),
            terminal(*self).offset == 0,
            col < terminal(*self).cols,
        ensures
            yes == wide_in_column(
                terminal(*self).cells.skip(terminal(*self).history()),
                col as int,
            ),
    {
        let (rows, _) = self.size();
        let ghost grid = terminal(*self).cells.skip(terminal(*self).history());
        let mut row: u16 = 0;
        while row < rows
            invariant
                terminal(*self).sound(),
                terminal(*self).offset == 0,
                rows == terminal(*self).rows,
                col < terminal(*self).cols,
                row <= rows,
                grid == terminal(*self).cells.skip(terminal(*self).history()),
                forall|r: int| 0 <= r < row ==> !(#[trigger] grid[r])[col as int].wide,
            decreases rows - row,
        {
            proof {
                assert(grid[row as int] == terminal(*self).cells[terminal(*self).top() + row]);
            }
            if let Some(cell) = self.cell(row, col) {
                if cell.wide {
                    proof {
                        assert(grid[row as int][col as int].wide);
                    }
                    return true;
                }
            }
            row = row + 1;
        }
        false
    }

    /// Whether a number of columns cuts a wide character in two.
    pub(crate) fn cut_at(&self, cols: u16) -> (yes: bool)
        requires
            terminal(*self).sound(),
        ensures
            yes == terminal(*self).is_cut_at(cols),
    {
        let (_, own) = self.size();
        if cols == 0 || cols >= own {
            return false;
        }
        let mut main = self.copy_on_main();
        main.set_scrollback(0);
        if main.wide_in_view(cols - 1) {
            return true;
        }
        let mut alternate = self.copy_on_alternate();
        alternate.set_scrollback(0);
        alternate.wide_in_view(cols - 1)
    }
}

} // verus!
