//! What holds of scrolling, searching and clearing a terminal.

use vstd::prelude::*;

use crate::path::components;
use crate::screen;
use crate::screen::CellView;
use crate::screen::Terminal;
use crate::search;
use crate::shell;
use crate::shell::TerminalSearchMatch;
use crate::spans;
use crate::text;

verus! {

/// Scrolling does not change what the terminal holds: scrolling back to where
/// the view was gives the terminal that was there before.
pub proof fn scrolling_loses_nothing(terminal: Terminal, rows: nat)
    requires
        terminal.sound(),
    ensures
        terminal.scrolled_to(rows).scrolled_to(terminal.offset) == terminal,
        terminal.scrolled_to(rows).sound(),
        terminal.scrolled_to(rows).lines == terminal.lines,
        terminal.scrolled_to(rows).cells == terminal.cells,
{
}

/// The view never leaves the rows that there are, and a row that is scrolled to
/// stands at its top, unless the rows below it do not fill the view.
pub proof fn row_comes_to_the_top(terminal: Terminal, row: nat)
    requires
        terminal.sound(),
    ensures
        ({
            let back = if row < terminal.history() {
                (terminal.history() - row) as nat
            } else {
                0
            };
            let shown = terminal.scrolled_to(back);
            &&& shown.top() == if row < terminal.history() {
                row as int
            } else {
                terminal.history()
            }
            &&& 0 <= shown.top()
            &&& shown.top() + shown.rows <= shown.lines.len()
        }),
{
}

proof fn lemma_found_rows(lines: Seq<Seq<char>>, needle: Seq<char>, rows: nat, i: int)
    requires
        rows <= lines.len() <= usize::MAX,
        0 <= i < shell::found_in_rows(lines, needle, rows).len(),
    ensures
        ({
            let found = shell::found_in_rows(lines, needle, rows)[i];
            &&& found.row < rows
            &&& search::ranges(lines[found.row as int], needle).contains((found.start, found.end))
        }),
    decreases rows,
{
    let row = (rows - 1) as nat;
    let before = shell::found_in_rows(lines, needle, row);
    if i < before.len() {
        lemma_found_rows(lines, needle, row, i);
    } else {
        let ranges = search::ranges(lines[row as int], needle);
        assert(ranges[i - before.len()] == (
            shell::found_in_rows(lines, needle, rows)[i].start,
            shell::found_in_rows(lines, needle, rows)[i].end,
        ));
    }
}

/// What a search finds can be brought into view: after scrolling to its row, the
/// row is one of the rows in view, and the text stands there.
pub proof fn found_text_comes_into_view(terminal: Terminal, needle: Seq<char>, i: int)
    requires
        terminal.sound(),
        terminal.lines.len() <= usize::MAX,
        0 <= i < shell::found_in_rows(terminal.lines, needle, terminal.lines.len()).len(),
    ensures
        ({
            let found = shell::found_in_rows(terminal.lines, needle, terminal.lines.len())[i];
            let back = if found.row < terminal.history() {
                (terminal.history() - found.row) as nat
            } else {
                0
            };
            let shown = terminal.scrolled_to(back);
            &&& shown.top() <= found.row < shown.top() + shown.rows
            &&& search::ranges(shown.view_lines()[found.row - shown.top()], needle).contains(
                (found.start, found.end),
            )
        }),
{
    lemma_found_rows(terminal.lines, needle, terminal.lines.len(), i);
}

proof fn lemma_no_used_col(terminal: Terminal, row: u16, cols: u16)
    requires
        terminal.sound(),
        terminal.is_blank(),
        row < terminal.rows,
        cols <= terminal.cols,
    ensures
        shell::last_used_col(terminal, row, cols) is None,
    decreases cols,
{
    if cols > 0 {
        lemma_no_used_col(terminal, row, (cols - 1) as u16);
        assert(terminal.cells[row as int] == screen::blank_row(terminal.cols));
    }
}

/// A terminal that was cleared shows nothing: there is nothing to be seen in its
/// rows, and they have no text.
pub proof fn blank_terminal_shows_nothing(terminal: Terminal, row: u16)
    requires
        terminal.sound(),
        terminal.is_blank(),
        row < terminal.rows,
    ensures
        shell::styled_row(terminal, row).len() == 0,
        terminal.view_lines()[row as int].len() == 0,
{
    lemma_no_used_col(terminal, row, terminal.cols);
}

/// Whether a cell is as it was before anything was written to it, or goes on from
/// the one before it.
pub open spec fn is_bare(cell: CellView) -> bool {
    ||| cell.continuation
    ||| {
        &&& cell.contents.len() == 0
        &&& cell.style.fg is Default
        &&& cell.style.bg is Default
        &&& !cell.style.bold
        &&& !cell.style.dim
        &&& !cell.style.italic
        &&& !cell.style.underline
        &&& !cell.style.inverse
    }
}

/// What is seen of a cell: its contents, a space where it has none, and nothing of
/// the second half of a wide character.
pub open spec fn seen_of(cell: CellView) -> Seq<char> {
    if cell.continuation {
        Seq::empty()
    } else if cell.contents.len() == 0 {
        seq![' ']
    } else {
        cell.contents
    }
}

proof fn lemma_last_used(terminal: Terminal, row: u16, cols: u16)
    requires
        terminal.sound(),
        row < terminal.rows,
        cols <= terminal.cols,
        terminal.cells[terminal.top() + row].len() == terminal.cols,
    ensures
        ({
            let cells = terminal.cells[terminal.top() + row];
            match shell::last_used_col(terminal, row, cols) {
                None => forall|c: int| 0 <= c < cols ==> is_bare(#[trigger] cells[c]),
                Some(last) => exists|used: int|
                    #![trigger cells[used]]
                    0 <= used < cols && !is_bare(cells[used]) && last == used + (if cells[used].wide {
                        1int
                    } else {
                        0
                    }) && forall|c: int| used < c < cols ==> is_bare(#[trigger] cells[c]),
            }
        }),
    decreases cols,
{
    if cols > 0 {
        let cells = terminal.cells[terminal.top() + row];
        let col = (cols - 1) as u16;
        let cell = cells[col as int];
        assert(terminal.cell(row, col) == Some(cell));
        lemma_last_used(terminal, row, col);
        if shell::shows(cell) {
            assert(!is_bare(cells[col as int]));
        } else {
            assert(is_bare(cell));
            if let Some(last) = shell::last_used_col(terminal, row, col) {
                let used = choose|used: int|
                    #![trigger cells[used]]
                    0 <= used < col && !is_bare(cells[used]) && last == used + (if cells[used].wide {
                        1int
                    } else {
                        0
                    }) && forall|c: int| used < c < col ==> is_bare(#[trigger] cells[c]);
                assert(!is_bare(cells[used]));
                assert forall|c: int| used < c < cols implies is_bare(#[trigger] cells[c]) by {
                    if c < col {
                        assert(is_bare(cells[c]));
                    }
                }
            }
        }
    }
}

proof fn lemma_shown_cells(terminal: Terminal, row: u16, cols: int) -> (places: Seq<int>)
    requires
        terminal.sound(),
        row < terminal.rows,
        0 <= cols <= terminal.cols,
        terminal.cells[terminal.top() + row].len() == terminal.cols,
    ensures
        places.len() == cols + 1,
        places[0] == 0,
        ({
            let cells = terminal.cells[terminal.top() + row];
            let chars = spans::styled_chars(shell::shown_cells(terminal, row, cols));
            &&& chars.len() == places[cols]
            &&& forall|c: int|
                0 <= c < cols ==> {
                    let seen = seen_of(#[trigger] cells[c]);
                    &&& 0 <= places[c]
                    &&& places[c + 1] == places[c] + seen.len()
                    &&& places[c + 1] <= chars.len()
                    &&& forall|i: int|
                        0 <= i < seen.len() ==> chars[places[c] + i] == (
                            #[trigger] seen[i],
                            cells[c].style,
                        )
                }
        }),
    decreases cols,
{
    if cols == 0 {
        seq![0int]
    } else {
        let cells = terminal.cells[terminal.top() + row];
        let before = lemma_shown_cells(terminal, row, cols - 1);
        let shorter = shell::shown_cells(terminal, row, cols - 1);
        let longer = shell::shown_cells(terminal, row, cols);
        let cell = cells[cols - 1];
        reveal_strlit(" ");
        assert(" "@ =~= seq![' ']);
        assert(terminal.cell(row, (cols - 1) as u16) == Some(cell));
        let seen = seen_of(cell);
        let places = before.push(before[cols - 1] + seen.len());
        let short_chars = spans::styled_chars(shorter);
        let chars = spans::styled_chars(longer);
        if !cell.continuation {
            assert(longer.drop_last() =~= shorter);
            assert(longer.last() == (seen, cell.style));
        }
        assert(chars =~= short_chars + Seq::new(seen.len(), |i: int| (seen[i], cell.style)));
        assert forall|c: int| 0 <= c < cols implies {
            let seen = seen_of(#[trigger] cells[c]);
            &&& 0 <= places[c]
            &&& places[c + 1] == places[c] + seen.len()
            &&& places[c + 1] <= chars.len()
            &&& forall|i: int|
                0 <= i < seen.len() ==> chars[places[c] + i] == (
                    #[trigger] seen[i],
                    cells[c].style,
                )
        } by {
            if c < cols - 1 {
                let own = seen_of(cells[c]);
                assert(before[c + 1] == before[c] + own.len());
                assert forall|i: int| 0 <= i < own.len() implies chars[places[c] + i] == (
                    #[trigger] own[i],
                    cells[c].style,
                ) by {
                    assert(short_chars[before[c] + i] == (own[i], cells[c].style));
                }
            }
        }
        places
    }
}

/// A row shows its cells one after the other, each with its own contents in its own
/// style, and nothing else; the runs of it differ in style from their neighbours. It
/// goes as far as there is a cell that anything was written to, or that has a style
/// of its own, and behind that nothing is left out that could be seen. `places` says
/// at which character of the row each cell stands.
pub proof fn rows_show_their_cells(terminal: Terminal, row: u16) -> (places: Seq<int>)
    requires
        terminal.sound(),
        row < terminal.rows,
        terminal.cells[terminal.top() + row].len() == terminal.cols,
    ensures
        ({
            let cells = terminal.cells[terminal.top() + row];
            let shown = shell::styled_row(terminal, row);
            let chars = spans::styled_chars(shown);
            let end = places.len() - 1;
            &&& 0 <= end <= cells.len()
            &&& places[0] == 0
            &&& places[end] == chars.len()
            &&& forall|c: int|
                0 <= c < end ==> {
                    let seen = seen_of(#[trigger] cells[c]);
                    &&& 0 <= places[c]
                    &&& places[c + 1] == places[c] + seen.len()
                    &&& places[c + 1] <= chars.len()
                    &&& forall|i: int|
                        0 <= i < seen.len() ==> chars[places[c] + i] == (
                            #[trigger] seen[i],
                            cells[c].style,
                        )
                }
            &&& forall|c: int| end <= c < cells.len() ==> is_bare(#[trigger] cells[c])
            &&& end > 0 ==> !is_bare(cells[end - 1]) || (end > 1 && !is_bare(cells[end - 2])
                && cells[end - 2].wide)
            &&& forall|i: int| 0 < i < shown.len() ==> (#[trigger] shown[i]).1 != shown[i - 1].1
        }),
{
    let cells = terminal.cells[terminal.top() + row];
    lemma_last_used(terminal, row, terminal.cols);
    match shell::last_used_col(terminal, row, terminal.cols) {
        None => seq![0int],
        Some(last) => {
            let end = if last < terminal.cols {
                last + 1
            } else {
                terminal.cols as int
            };
            let items = shell::shown_cells(terminal, row, end);
            spans::runs_keep_the_text(items);
            spans::runs_keep_the_styles(items);
            lemma_shown_cells(terminal, row, end)
        },
    }
}

proof fn lemma_found_complete(
    lines: Seq<Seq<char>>,
    needle: Seq<char>,
    rows: nat,
    row: int,
    k: int,
)
    requires
        rows <= lines.len() <= usize::MAX,
        0 <= row < rows,
        0 <= k < search::ranges(lines[row], needle).len(),
    ensures
        shell::found_in_rows(lines, needle, rows).contains(
            TerminalSearchMatch {
                row: row as usize,
                start: search::ranges(lines[row], needle)[k].0,
                end: search::ranges(lines[row], needle)[k].1,
            },
        ),
    decreases rows,
{
    let last = (rows - 1) as nat;
    let before = shell::found_in_rows(lines, needle, last);
    let found = shell::found_in_rows(lines, needle, rows);
    let ranges = search::ranges(lines[row], needle);
    let wanted = TerminalSearchMatch {
        row: row as usize,
        start: ranges[k].0,
        end: ranges[k].1,
    };
    if row == last {
        assert(found[before.len() + k] == wanted);
    } else {
        lemma_found_complete(lines, needle, last, row, k);
        let i = choose|i: int| 0 <= i < before.len() && before[i] == wanted;
        assert(found[i] == wanted);
    }
}

/// A search finds the text in the rows, from the oldest one on: at every place it
/// names the characters are those of the text, and a place at which the text stands
/// is found, or overlaps one that is.
pub proof fn searching_finds_the_text_in_the_rows(lines: Seq<Seq<char>>, needle: Seq<char>)
    requires
        lines.len() <= usize::MAX,
        forall|row: int| 0 <= row < lines.len() ==> (#[trigger] lines[row]).len() <= usize::MAX,
    ensures
        ({
            let found = shell::found_in_rows(lines, needle, lines.len());
            &&& forall|i: int|
                0 <= i < found.len() ==> {
                    let at = #[trigger] found[i];
                    &&& at.row < lines.len()
                    &&& at.start < at.end <= lines[at.row as int].len()
                    &&& at.end - at.start == needle.len()
                    &&& forall|j: int|
                        0 <= j < needle.len() ==> lines[at.row as int][at.start + j]
                            == #[trigger] needle[j]
                }
            &&& forall|i: int, j: int|
                0 <= i < j < found.len() ==> (#[trigger] found[i]).row < (
                #[trigger] found[j]).row || found[i].row == found[j].row && found[i].end
                    <= found[j].start
            &&& forall|row: int, at: int|
                #![trigger lines[row].subrange(at, at + needle.len())]
                0 <= row < lines.len() && needle.len() > 0 && 0 <= at && at + needle.len()
                    <= lines[row].len() && lines[row].subrange(at, at + needle.len()) == needle
                    ==> exists|i: int|
                    0 <= i < found.len() && (#[trigger] found[i]).row == row && found[i].start
                        <= at < found[i].end
        }),
{
    let found = shell::found_in_rows(lines, needle, lines.len());
    assert forall|i: int| 0 <= i < found.len() implies {
        let at = #[trigger] found[i];
        &&& at.row < lines.len()
        &&& at.start < at.end <= lines[at.row as int].len()
        &&& at.end - at.start == needle.len()
        &&& forall|j: int|
            0 <= j < needle.len() ==> lines[at.row as int][at.start + j] == #[trigger] needle[j]
    } by {
        lemma_found_rows(lines, needle, lines.len(), i);
        let at = found[i];
        let line = lines[at.row as int];
        search::found_ranges_hold_the_text(line, needle);
        let ranges = search::ranges(line, needle);
        let k = choose|k: int| 0 <= k < ranges.len() && ranges[k] == (at.start, at.end);
        assert(ranges[k].0 < ranges[k].1);
    }
    lemma_found_in_order(lines, needle, lines.len());
    assert forall|row: int, at: int|
        #![trigger lines[row].subrange(at, at + needle.len())]
        0 <= row < lines.len() && needle.len() > 0 && 0 <= at && at + needle.len()
            <= lines[row].len() && lines[row].subrange(at, at + needle.len()) == needle implies exists|
        i: int,
    |
        0 <= i < found.len() && (#[trigger] found[i]).row == row && found[i].start <= at
            < found[i].end by {
        search::found_ranges_hold_the_text(lines[row], needle);
        let ranges = search::ranges(lines[row], needle);
        let k = choose|k: int| 0 <= k < ranges.len() && (#[trigger] ranges[k]).0 <= at < ranges[k].1;
        lemma_found_complete(lines, needle, lines.len(), row, k);
        let wanted = TerminalSearchMatch {
            row: row as usize,
            start: ranges[k].0,
            end: ranges[k].1,
        };
        let i = choose|i: int| 0 <= i < found.len() && found[i] == wanted;
        assert(found[i].row == row);
    }
}

proof fn lemma_found_in_order(lines: Seq<Seq<char>>, needle: Seq<char>, rows: nat)
    requires
        rows <= lines.len() <= usize::MAX,
        forall|row: int| 0 <= row < lines.len() ==> (#[trigger] lines[row]).len() <= usize::MAX,
    ensures
        ({
            let found = shell::found_in_rows(lines, needle, rows);
            forall|i: int, j: int|
                0 <= i < j < found.len() ==> (#[trigger] found[i]).row < (
                #[trigger] found[j]).row || found[i].row == found[j].row && found[i].end
                    <= found[j].start
        }),
    decreases rows,
{
    if rows > 0 {
        let last = (rows - 1) as nat;
        let before = shell::found_in_rows(lines, needle, last);
        let found = shell::found_in_rows(lines, needle, rows);
        let ranges = search::ranges(lines[last as int], needle);
        lemma_found_in_order(lines, needle, last);
        search::found_ranges_hold_the_text(lines[last as int], needle);
        assert forall|i: int, j: int| 0 <= i < j < found.len() implies (
        #[trigger] found[i]).row < (#[trigger] found[j]).row || found[i].row == found[j].row
            && found[i].end <= found[j].start by {
            if j < before.len() {
                assert(found[i] == before[i] && found[j] == before[j]);
            } else {
                assert(found[j].row == last);
                assert(found[j].start == ranges[j - before.len()].0);
                if i < before.len() {
                    assert(found[i] == before[i]);
                    lemma_found_rows(lines, needle, last, i);
                } else {
                    assert(found[i].end == ranges[i - before.len()].1);
                }
            }
        }
    }
}

/// Pasted text reaches the program unchanged: in brackets, if it asked for them,
/// that tell where it begins and ends, and bare otherwise.
pub proof fn pasted_text_stays_as_it_is(pasted: Seq<char>)
    ensures
        shell::pasted(pasted, false) == vstd::utf8::encode_utf8(pasted),
        shell::pasted(pasted, true) == vstd::utf8::encode_utf8(
            seq!['\x1b', '[', '2', '0', '0', '~'] + pasted + seq![
                '\x1b',
                '[',
                '2',
                '0',
                '1',
                '~',
            ],
        ),
{
    reveal_strlit("\x1b[200~");
    reveal_strlit("\x1b[201~");
    assert("\x1b[200~"@ =~= seq!['\x1b', '[', '2', '0', '0', '~']);
    assert("\x1b[201~"@ =~= seq!['\x1b', '[', '2', '0', '1', '~']);
}

/// How a program ended is told by its signal, or else by the number that it ended with.
pub proof fn ends_are_told_by_signal_or_number(status: shell::ShellExitStatus)
    ensures
        status.signal matches Some(signal) ==> status.label_text() == seq![
            's',
            'i',
            'g',
            'n',
            'a',
            'l',
            ':',
        ] + signal@,
        status.signal is None ==> status.label_text() == seq!['e', 'x', 'i', 't', ':']
            + crate::text::decimal(status.code as nat),
{
    reveal_strlit("signal:");
    reveal_strlit("exit:");
    assert("signal:"@ =~= seq!['s', 'i', 'g', 'n', 'a', 'l', ':']);
    assert("exit:"@ =~= seq!['e', 'x', 'i', 't', ':']);
}

/// The view shows as many rows as it has, those from its top on, and scrolling back by a
/// row brings the row before them to the top.
pub proof fn views_show_the_rows_from_their_top(terminal: Terminal, row: u16, back: nat)
    requires
        terminal.sound(),
        row < terminal.rows,
    ensures
        terminal.view_lines().len() == terminal.rows,
        terminal.view_lines()[row as int] == terminal.lines[terminal.lines.len() - terminal.rows
            - terminal.offset + row],
        back <= terminal.lines.len() - terminal.rows ==> terminal.scrolled_to(back).offset == back,
        back > terminal.lines.len() - terminal.rows ==> terminal.scrolled_to(back).offset
            == terminal.lines.len() - terminal.rows,
{
}

/// A panel that is given a size gets it, at least one row of two columns, and keeps what
/// the shell reported; one that has the size already stays as it is.
pub proof fn panels_get_the_size_that_they_are_given(
    panel: shell::ShellPanel,
    rows: u16,
    cols: u16,
    after: shell::ShellPanel,
    changed: Option<(u16, u16)>,
)
    requires
        rows >= 1,
        cols >= 2,
        panel.resized_to(rows, cols, after, changed),
    ensures
        after@.terminal.rows == rows,
        after@.terminal.cols == cols,
        after@.osc == panel@.osc,
        after@.user_scrollback == panel@.user_scrollback,
        changed is None <==> panel@.terminal.rows == rows && panel@.terminal.cols == cols,
        changed is Some ==> changed == Some((rows, cols)),
        changed is None ==> after@ == panel@,
{
}

/// Pieces of output are read one after the other.
pub proof fn output_is_read_piece_by_piece(chunks: Seq<Vec<u8>>, chunk: Vec<u8>)
    ensures
        shell::flattened(chunks.push(chunk)) == shell::flattened(chunks) + chunk@,
        shell::flattened(Seq::empty()).len() == 0,
{
    assert(chunks.push(chunk).drop_last() =~= chunks);
}

/// A program that asked for an event of the mouse is sent what is written for it, in the
/// way that it asked for; one that did not is sent nothing.
pub proof fn mouse_events_go_by_what_the_program_asked_for(
    terminal: Terminal,
    kind: crate::mouse::MouseEventKind,
    row: u16,
    col: u16,
    modifiers: crate::keys::KeyModifiers,
)
    ensures
        ({
            let report = shell::mouse_report(terminal, kind, row, col, modifiers);
            let bytes = crate::mouse::mouse_bytes(
                kind,
                row,
                col,
                modifiers,
                terminal.mouse_mode,
                terminal.mouse_encoding,
            );
            &&& bytes is Some ==> report == bytes->0
            &&& bytes is None ==> report.len() == 0
        }),
{
}

/// A shell is told by the name of its program, whichever directory it lies in.
pub proof fn shells_go_by_their_names(shell: Seq<char>, platform: crate::path::Platform)
    ensures
        ({
            let name = components::file_name_text(shell, platform);
            let known = shell::integration_of(shell, platform);
            &&& name == Some(seq!['b', 'a', 's', 'h']) ==> known is Bash
            &&& name == Some(seq!['z', 's', 'h']) ==> known is Zsh
            &&& name is Some && name->0 != seq!['b', 'a', 's', 'h'] && name->0 != seq!['z', 's', 'h']
                ==> known is Plain
            &&& name is None && shell == seq!['b', 'a', 's', 'h'] ==> known is Bash
            &&& name is None && shell == seq!['z', 's', 'h'] ==> known is Zsh
        }),
{
    reveal_strlit("bash");
    reveal_strlit("zsh");
    assert("bash"@ =~= seq!['b', 'a', 's', 'h']);
    assert("zsh"@ =~= seq!['z', 's', 'h']);
}

/// The directory for the start-up files of a shell is named after the program, the shell,
/// the process and the time.
pub proof fn start_up_files_have_a_directory_of_their_own(label: Seq<char>, process: u32, nanos: nat)
    ensures
        shell::integration_dir(label, process, nanos) == seq!['t', 's', 'c', 'o', 'd', 'e', '-']
            + label + seq!['-'] + text::decimal(process as nat) + seq!['-'] + text::decimal(nanos),
{
    reveal_strlit("tscode-");
    reveal_strlit("-");
    assert("tscode-"@ =~= seq!['t', 's', 'c', 'o', 'd', 'e', '-']);
    assert("-"@ =~= seq!['-']);
}

/// Ten thousand rows are kept that were scrolled off the screen.
pub proof fn ten_thousand_rows_are_kept(panel: shell::ShellPanel)
    requires
        panel@.terminal.limit == shell::SCROLLBACK,
    ensures
        panel@.terminal.limit == 10000,
{
}

} // verus!
