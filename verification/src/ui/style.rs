//! Colors and styles.

use vstd::prelude::*;

use crate::screen::TerminalColor;
use crate::screen::TerminalStyle;

verus! {

#[derive(Debug, Clone, Copy, PartialEq, Eq, Structural)]
pub enum Color {
    Black,
    Red,
    Green,
    Yellow,
    Blue,
    Magenta,
    Cyan,
    Gray,
    DarkGray,
    LightRed,
    LightGreen,
    LightYellow,
    LightBlue,
    LightMagenta,
    LightCyan,
    White,
    Rgb(u8, u8, u8),
    Indexed(u8),
}

/// How text is shown. A color that is not given is that of what lies below.
#[derive(Debug, Clone, Copy, PartialEq, Eq, Structural)]
pub struct Style {
    pub fg: Option<Color>,
    pub bg: Option<Color>,
    pub bold: bool,
    pub dim: bool,
    pub italic: bool,
    pub underlined: bool,
}

/// The style that changes nothing.
#[verifier::allow_in_spec]
pub fn plain() -> Style
    returns
        (Style { fg: None, bg: None, bold: false, dim: false, italic: false, underlined: false }),
{
    Style { fg: None, bg: None, bold: false, dim: false, italic: false, underlined: false }
}

impl Style {
    #[verifier::allow_in_spec]
    pub fn fg(self, color: Color) -> Style
        returns
            (Style { fg: Some(color), ..self }),
    {
        Style { fg: Some(color), ..self }
    }

    #[verifier::allow_in_spec]
    pub fn bg(self, color: Color) -> Style
        returns
            (Style { bg: Some(color), ..self }),
    {
        Style { bg: Some(color), ..self }
    }

    #[verifier::allow_in_spec]
    pub fn bold(self) -> Style
        returns
            (Style { bold: true, ..self }),
    {
        Style { bold: true, ..self }
    }

    #[verifier::allow_in_spec]
    pub fn underlined(self) -> Style
        returns
            (Style { underlined: true, ..self }),
    {
        Style { underlined: true, ..self }
    }
}

#[verifier::allow_in_spec]
pub fn title_bg() -> Color
    returns
        Color::Rgb(32, 40, 54),
{
    Color::Rgb(32, 40, 54)
}

#[verifier::allow_in_spec]
pub fn panel_bg() -> Color
    returns
        Color::Rgb(13, 17, 23),
{
    Color::Rgb(13, 17, 23)
}

#[verifier::allow_in_spec]
pub fn hover_bg() -> Color
    returns
        Color::Rgb(42, 54, 71),
{
    Color::Rgb(42, 54, 71)
}

#[verifier::allow_in_spec]
pub fn active_bg() -> Color
    returns
        Color::Rgb(24, 64, 92),
{
    Color::Rgb(24, 64, 92)
}

#[verifier::allow_in_spec]
pub fn search_bg() -> Color
    returns
        Color::Rgb(104, 76, 28),
{
    Color::Rgb(104, 76, 28)
}

#[verifier::allow_in_spec]
pub fn search_active_bg() -> Color
    returns
        Color::Rgb(222, 184, 75),
{
    Color::Rgb(222, 184, 75)
}

#[verifier::allow_in_spec]
pub fn highlight_text_bg() -> Color
    returns
        Color::Rgb(43, 54, 79),
{
    Color::Rgb(43, 54, 79)
}

#[verifier::allow_in_spec]
pub fn highlight_read_bg() -> Color
    returns
        Color::Rgb(28, 71, 58),
{
    Color::Rgb(28, 71, 58)
}

#[verifier::allow_in_spec]
pub fn highlight_write_bg() -> Color
    returns
        Color::Rgb(91, 56, 38),
{
    Color::Rgb(91, 56, 38)
}

#[verifier::allow_in_spec]
pub fn error_bg() -> Color
    returns
        Color::Rgb(61, 27, 34),
{
    Color::Rgb(61, 27, 34)
}

#[verifier::allow_in_spec]
pub fn warning_bg() -> Color
    returns
        Color::Rgb(58, 48, 24),
{
    Color::Rgb(58, 48, 24)
}

#[verifier::allow_in_spec]
pub fn info_bg() -> Color
    returns
        Color::Rgb(29, 44, 61),
{
    Color::Rgb(29, 44, 61)
}

#[verifier::allow_in_spec]
pub fn border_color() -> Color
    returns
        Color::Rgb(75, 89, 110),
{
    Color::Rgb(75, 89, 110)
}

#[verifier::allow_in_spec]
pub fn accent() -> Color
    returns
        Color::Rgb(89, 169, 255),
{
    Color::Rgb(89, 169, 255)
}

#[verifier::allow_in_spec]
pub fn text_color() -> Color
    returns
        Color::Rgb(205, 213, 224),
{
    Color::Rgb(205, 213, 224)
}

#[verifier::allow_in_spec]
pub fn muted() -> Color
    returns
        Color::Rgb(117, 132, 154),
{
    Color::Rgb(117, 132, 154)
}

#[verifier::allow_in_spec]
pub fn tab_bg() -> Color
    returns
        Color::Rgb(18, 24, 33),
{
    Color::Rgb(18, 24, 33)
}

#[verifier::allow_in_spec]
pub fn split_tab_bg() -> Color
    returns
        Color::Rgb(38, 50, 62),
{
    Color::Rgb(38, 50, 62)
}

#[verifier::allow_in_spec]
pub fn split_pane_bg() -> Color
    returns
        Color::Rgb(15, 23, 32),
{
    Color::Rgb(15, 23, 32)
}

#[verifier::allow_in_spec]
pub fn exited_fg() -> Color
    returns
        Color::Rgb(248, 113, 113),
{
    Color::Rgb(248, 113, 113)
}

/// The border of a panel.
#[verifier::allow_in_spec]
pub fn border_style(focused: bool) -> Style
    returns
        (if focused {
            plain().fg(accent())
        } else {
            plain().fg(border_color())
        }),
{
    if focused {
        plain().fg(accent())
    } else {
        plain().fg(border_color())
    }
}

/// The background of a panel.
#[verifier::allow_in_spec]
pub fn panel_style() -> Style
    returns
        plain().bg(panel_bg()),
{
    plain().bg(panel_bg())
}

/// Text on a panel.
#[verifier::allow_in_spec]
pub fn body_style() -> Style
    returns
        plain().fg(text_color()).bg(panel_bg()),
{
    plain().fg(text_color()).bg(panel_bg())
}

/// Text on a panel that stands back.
#[verifier::allow_in_spec]
pub fn muted_style() -> Style
    returns
        plain().fg(muted()).bg(panel_bg()),
{
    plain().fg(muted()).bg(panel_bg())
}

/// The lines at the top and at the bottom of the screen.
#[verifier::allow_in_spec]
pub fn bar_style() -> Style
    returns
        plain().fg(text_color()).bg(title_bg()),
{
    plain().fg(text_color()).bg(title_bg())
}

/// A tab that is neither active nor hovered, and the bar behind the tabs.
#[verifier::allow_in_spec]
pub fn tab_bar_style() -> Style
    returns
        plain().fg(text_color()).bg(tab_bg()),
{
    plain().fg(text_color()).bg(tab_bg())
}

/// A cursor in a line.
#[verifier::allow_in_spec]
pub fn cursor_style() -> Style
    returns
        plain().fg(Color::Black).bg(accent()),
{
    plain().fg(Color::Black).bg(accent())
}

/// A row of a list.
#[verifier::allow_in_spec]
pub fn row_style(selected: bool, hovered: bool) -> Style
    returns
        (if selected {
            plain().fg(Color::White).bg(active_bg())
        } else if hovered {
            plain().fg(Color::White).bg(hover_bg())
        } else {
            body_style()
        }),
{
    if selected {
        plain().fg(Color::White).bg(active_bg())
    } else if hovered {
        plain().fg(Color::White).bg(hover_bg())
    } else {
        body_style()
    }
}

/// A row of the explorer.
#[verifier::allow_in_spec]
pub fn explorer_row_style(selected: bool, hovered: bool, multi_selected: bool, drop_target: bool) -> Style
    returns
        (if drop_target {
            plain().fg(Color::White).bg(accent()).bold()
        } else if selected {
            plain().fg(Color::White).bg(active_bg())
        } else if hovered && multi_selected {
            plain().fg(Color::White).bg(Color::Rgb(42, 64, 92))
        } else if multi_selected {
            plain().fg(Color::White).bg(Color::Rgb(25, 44, 66))
        } else if hovered {
            plain().fg(Color::White).bg(hover_bg())
        } else {
            body_style()
        }),
{
    if drop_target {
        plain().fg(Color::White).bg(accent()).bold()
    } else if selected {
        plain().fg(Color::White).bg(active_bg())
    } else if hovered && multi_selected {
        plain().fg(Color::White).bg(Color::Rgb(42, 64, 92))
    } else if multi_selected {
        plain().fg(Color::White).bg(Color::Rgb(25, 44, 66))
    } else if hovered {
        plain().fg(Color::White).bg(hover_bg())
    } else {
        body_style()
    }
}

/// How serious a problem is.
#[derive(Debug, Clone, Copy, PartialEq, Eq, Structural)]
pub enum ProblemSeverity {
    Error,
    Warning,
    Note,
    Help,
    Problem,
}

/// The mark of a problem beside its line.
pub open spec fn marker_text(severity: ProblemSeverity) -> Seq<char> {
    match severity {
        ProblemSeverity::Error => "E"@,
        ProblemSeverity::Warning => "W"@,
        ProblemSeverity::Note => "i"@,
        ProblemSeverity::Help => "i"@,
        ProblemSeverity::Problem => "!"@,
    }
}

pub fn problem_marker(severity: ProblemSeverity) -> (marker: &'static str)
    ensures
        marker@ == marker_text(severity),
{
    match severity {
        ProblemSeverity::Error => "E",
        ProblemSeverity::Warning => "W",
        ProblemSeverity::Note => "i",
        ProblemSeverity::Help => "i",
        ProblemSeverity::Problem => "!",
    }
}

/// The gutter of a line with a problem.
#[verifier::allow_in_spec]
pub fn problem_gutter_style(severity: ProblemSeverity) -> Style
    returns
        (match severity {
            ProblemSeverity::Error => plain().fg(Color::LightRed).bg(error_bg()).bold(),
            ProblemSeverity::Warning => plain().fg(Color::LightYellow).bg(warning_bg()).bold(),
            ProblemSeverity::Note => plain().fg(Color::LightCyan).bg(info_bg()).bold(),
            ProblemSeverity::Help => plain().fg(Color::LightCyan).bg(info_bg()).bold(),
            ProblemSeverity::Problem => plain().fg(Color::White).bg(info_bg()).bold(),
        }),
{
    match severity {
        ProblemSeverity::Error => plain().fg(Color::LightRed).bg(error_bg()).bold(),
        ProblemSeverity::Warning => plain().fg(Color::LightYellow).bg(warning_bg()).bold(),
        ProblemSeverity::Note => plain().fg(Color::LightCyan).bg(info_bg()).bold(),
        ProblemSeverity::Help => plain().fg(Color::LightCyan).bg(info_bg()).bold(),
        ProblemSeverity::Problem => plain().fg(Color::White).bg(info_bg()).bold(),
    }
}

/// A line with a problem.
#[verifier::allow_in_spec]
pub fn problem_line_style(severity: ProblemSeverity) -> Style
    returns
        (match severity {
            ProblemSeverity::Error => plain().bg(error_bg()),
            ProblemSeverity::Warning => plain().bg(warning_bg()),
            ProblemSeverity::Note => plain().bg(info_bg()),
            ProblemSeverity::Help => plain().bg(info_bg()),
            ProblemSeverity::Problem => plain().bg(info_bg()),
        }),
{
    match severity {
        ProblemSeverity::Error => plain().bg(error_bg()),
        ProblemSeverity::Warning => plain().bg(warning_bg()),
        ProblemSeverity::Note => plain().bg(info_bg()),
        ProblemSeverity::Help => plain().bg(info_bg()),
        ProblemSeverity::Problem => plain().bg(info_bg()),
    }
}

/// Selected text of the terminal.
#[verifier::allow_in_spec]
pub fn terminal_selection_style(style: Style) -> Style
    returns
        style.fg(Color::Black).bg(accent()),
{
    style.fg(Color::Black).bg(accent())
}

/// Found text of the terminal.
#[verifier::allow_in_spec]
pub fn terminal_search_style(style: Style, active: bool) -> Style
    returns
        (if active {
            style.fg(Color::Black).bg(search_active_bg())
        } else {
            style.fg(Color::White).bg(search_bg())
        }),
{
    if active {
        style.fg(Color::Black).bg(search_active_bg())
    } else {
        style.fg(Color::White).bg(search_bg())
    }
}

/// A link in the terminal.
#[verifier::allow_in_spec]
pub fn terminal_link_style(style: Style) -> Style
    returns
        style.fg(accent()).underlined(),
{
    style.fg(accent()).underlined()
}

/// The color that a terminal program names, where it names one.
pub open spec fn shown_color(color: TerminalColor) -> Option<Color> {
    match color {
        TerminalColor::Default => None,
        TerminalColor::Rgb(r, g, b) => Some(Color::Rgb(r, g, b)),
        TerminalColor::Idx(index) => Some(
            if index == 0 {
                Color::Black
            } else if index == 1 {
                Color::Red
            } else if index == 2 {
                Color::Green
            } else if index == 3 {
                Color::Yellow
            } else if index == 4 {
                Color::Blue
            } else if index == 5 {
                Color::Magenta
            } else if index == 6 {
                Color::Cyan
            } else if index == 7 {
                Color::Gray
            } else if index == 8 {
                Color::DarkGray
            } else if index == 9 {
                Color::LightRed
            } else if index == 10 {
                Color::LightGreen
            } else if index == 11 {
                Color::LightYellow
            } else if index == 12 {
                Color::LightBlue
            } else if index == 13 {
                Color::LightMagenta
            } else if index == 14 {
                Color::LightCyan
            } else if index == 15 {
                Color::White
            } else {
                Color::Indexed(index)
            },
        ),
    }
}

pub fn terminal_color(color: TerminalColor) -> (shown: Option<Color>)
    ensures
        shown == shown_color(color),
{
    match color {
        TerminalColor::Default => None,
        TerminalColor::Rgb(red, green, blue) => Some(Color::Rgb(red, green, blue)),
        TerminalColor::Idx(index) => Some(
            match index {
                0 => Color::Black,
                1 => Color::Red,
                2 => Color::Green,
                3 => Color::Yellow,
                4 => Color::Blue,
                5 => Color::Magenta,
                6 => Color::Cyan,
                7 => Color::Gray,
                8 => Color::DarkGray,
                9 => Color::LightRed,
                10 => Color::LightGreen,
                11 => Color::LightYellow,
                12 => Color::LightBlue,
                13 => Color::LightMagenta,
                14 => Color::LightCyan,
                15 => Color::White,
                index => Color::Indexed(index),
            },
        ),
    }
}

/// How a terminal cell is shown: colors that are not named are those of a
/// panel, and an inverse cell has its two colors exchanged.
pub open spec fn shown_style(style: TerminalStyle) -> Style {
    let fg = match shown_color(style.fg) {
        Some(color) => color,
        None => text_color(),
    };
    let bg = match shown_color(style.bg) {
        Some(color) => color,
        None => panel_bg(),
    };
    Style {
        fg: Some(
            if style.inverse {
                bg
            } else {
                fg
            },
        ),
        bg: Some(
            if style.inverse {
                fg
            } else {
                bg
            },
        ),
        bold: style.bold,
        dim: style.dim,
        italic: style.italic,
        underlined: style.underline,
    }
}

pub fn terminal_style(style: TerminalStyle) -> (shown: Style)
    ensures
        shown == shown_style(style),
{
    let fg = match terminal_color(style.fg) {
        Some(color) => color,
        None => text_color(),
    };
    let bg = match terminal_color(style.bg) {
        Some(color) => color,
        None => panel_bg(),
    };
    let (fg, bg) = if style.inverse {
        (bg, fg)
    } else {
        (fg, bg)
    };
    Style {
        fg: Some(fg),
        bg: Some(bg),
        bold: style.bold,
        dim: style.dim,
        italic: style.italic,
        underlined: style.underline,
    }
}

/// Inverting a cell exchanges its two colors and changes nothing else; a cell
/// inverted twice is shown as it was.
pub proof fn inverse_exchanges_colors(style: TerminalStyle)
    ensures
        ({
            let inverted = TerminalStyle { inverse: !style.inverse, ..style };
            let shown = shown_style(style);
            shown_style(inverted) == Style { fg: shown.bg, bg: shown.fg, ..shown }
        }),
{
}

/// The first sixteen colors of a terminal are the named ones, the dark ones before
/// the light ones; the others go by their number. No two of them are shown alike.
pub proof fn terminal_colors_are_told_apart(a: TerminalColor, b: TerminalColor)
    ensures
        shown_color(a) == shown_color(b) <==> a == b,
        shown_color(a) is None <==> a is Default,
        a matches TerminalColor::Rgb(r, g, b) ==> shown_color(a) == Some(Color::Rgb(r, g, b)),
        a matches TerminalColor::Idx(n) ==> {
            shown_color(a) == Some(
                if n >= 16 {
                    Color::Indexed(n)
                } else if n >= 8 {
                    if n % 8 == 0 {
                        Color::DarkGray
                    } else if n % 8 == 7 {
                        Color::White
                    } else if n % 8 == 1 {
                        Color::LightRed
                    } else if n % 8 == 2 {
                        Color::LightGreen
                    } else if n % 8 == 3 {
                        Color::LightYellow
                    } else if n % 8 == 4 {
                        Color::LightBlue
                    } else if n % 8 == 5 {
                        Color::LightMagenta
                    } else {
                        Color::LightCyan
                    }
                } else if n == 0 {
                    Color::Black
                } else if n == 7 {
                    Color::Gray
                } else if n == 1 {
                    Color::Red
                } else if n == 2 {
                    Color::Green
                } else if n == 3 {
                    Color::Yellow
                } else if n == 4 {
                    Color::Blue
                } else if n == 5 {
                    Color::Magenta
                } else {
                    Color::Cyan
                },
            )
        },
{
}

/// A cell of the terminal is shown in the colors that the program names, and else in
/// those of the panel; bold, dim, italic and underlined as the program says.
pub proof fn terminal_styles_are_kept(style: TerminalStyle)
    ensures
        ({
            let shown = shown_style(style);
            let front = if style.inverse {
                shown.bg
            } else {
                shown.fg
            };
            let back = if style.inverse {
                shown.fg
            } else {
                shown.bg
            };
            &&& front == if style.fg is Default {
                Some(Color::Rgb(205, 213, 224))
            } else {
                shown_color(style.fg)
            }
            &&& back == if style.bg is Default {
                Some(Color::Rgb(13, 17, 23))
            } else {
                shown_color(style.bg)
            }
            &&& shown.bold == style.bold
            &&& shown.dim == style.dim
            &&& shown.italic == style.italic
            &&& shown.underlined == style.underline
        }),
{
}

/// A row that is selected is shown white on one color, one under the mouse on
/// another, and any other one as text on a panel: a selected row stands out whether
/// the mouse is on it or not.
pub proof fn selected_rows_stand_out(selected: bool, hovered: bool)
    ensures
        row_style(selected, hovered) == (Style {
            fg: Some(
                if selected || hovered {
                    Color::White
                } else {
                    Color::Rgb(205, 213, 224)
                },
            ),
            bg: Some(
                if selected {
                    Color::Rgb(24, 64, 92)
                } else if hovered {
                    Color::Rgb(42, 54, 71)
                } else {
                    Color::Rgb(13, 17, 23)
                },
            ),
            bold: false,
            dim: false,
            italic: false,
            underlined: false,
        }),
{
}

/// In the explorer the row that something is dropped on stands out most, then the
/// selected one, then those selected besides, and then the one under the mouse.
pub proof fn explorer_rows_stand_out(
    selected: bool,
    hovered: bool,
    multi_selected: bool,
    drop_target: bool,
)
    ensures
        ({
            let style = explorer_row_style(selected, hovered, multi_selected, drop_target);
            &&& style.bold == drop_target
            &&& drop_target ==> style.bg == Some(Color::Rgb(89, 169, 255))
            &&& !drop_target && selected ==> style.bg == Some(Color::Rgb(24, 64, 92))
            &&& !drop_target && !selected && multi_selected ==> style.bg == Some(
                if hovered {
                    Color::Rgb(42, 64, 92)
                } else {
                    Color::Rgb(25, 44, 66)
                },
            )
            &&& !drop_target && !selected && !multi_selected ==> style.bg == Some(
                if hovered {
                    Color::Rgb(42, 54, 71)
                } else {
                    Color::Rgb(13, 17, 23)
                },
            )
            &&& style.fg == Some(
                if drop_target || selected || multi_selected || hovered {
                    Color::White
                } else {
                    Color::Rgb(205, 213, 224)
                },
            )
        }),
{
}

/// Errors, warnings and notes have marks and colors of their own: no two of them
/// are shown alike beside a line, and help is shown as a note is.
pub proof fn problems_are_told_apart_by_severity(a: ProblemSeverity, b: ProblemSeverity)
    ensures
        marker_text(a) == marker_text(b) && problem_gutter_style(a) == problem_gutter_style(b)
            <==> (a == b || ((a is Note || a is Help) && (b is Note || b is Help))),
        a is Error ==> marker_text(a) == seq!['E'] && problem_gutter_style(a).fg == Some(
            Color::LightRed,
        ) && problem_line_style(a).bg == Some(Color::Rgb(61, 27, 34)),
        a is Warning ==> marker_text(a) == seq!['W'] && problem_gutter_style(a).fg == Some(
            Color::LightYellow,
        ) && problem_line_style(a).bg == Some(Color::Rgb(58, 48, 24)),
        a is Note || a is Help ==> marker_text(a) == seq!['i'] && problem_gutter_style(a).fg == Some(
            Color::LightCyan,
        ) && problem_line_style(a).bg == Some(Color::Rgb(29, 44, 61)),
        a is Problem ==> marker_text(a) == seq!['!'] && problem_gutter_style(a).fg == Some(
            Color::White,
        ) && problem_line_style(a).bg == Some(Color::Rgb(29, 44, 61)),
        problem_gutter_style(a).bg == problem_line_style(a).bg,
        problem_gutter_style(a).bold,
{
    reveal_strlit("E");
    reveal_strlit("W");
    reveal_strlit("i");
    reveal_strlit("!");
    assert("E"@ =~= seq!['E']);
    assert("W"@ =~= seq!['W']);
    assert("i"@ =~= seq!['i']);
    assert("!"@ =~= seq!['!']);
    assert("E"@[0] != "W"@[0]);
    assert("!"@[0] == '!');
}

/// Setting one part of a style sets that part and keeps all the others.
pub proof fn parts_of_a_style_are_set_one_by_one(style: Style, color: Color)
    ensures
        style.fg(color).fg == Some(color) && style.fg(color).bg == style.bg,
        style.bg(color).bg == Some(color) && style.bg(color).fg == style.fg,
        style.fg(color).bold == style.bold && style.bg(color).bold == style.bold,
        style.fg(color).dim == style.dim && style.bg(color).dim == style.dim,
        style.fg(color).italic == style.italic && style.bg(color).italic == style.italic,
        style.fg(color).underlined == style.underlined,
        style.bg(color).underlined == style.underlined,
        style.bold().bold && style.bold().underlined == style.underlined,
        style.underlined().underlined && style.underlined().bold == style.bold,
        style.bold().fg == style.fg && style.bold().bg == style.bg,
        style.underlined().fg == style.fg && style.underlined().bg == style.bg,
        plain().fg is None && plain().bg is None,
        !plain().bold && !plain().dim && !plain().italic && !plain().underlined,
{
}

/// The colors that the screen is drawn in.
pub proof fn colors_are_those_of_a_dark_screen()
    ensures
        title_bg() == Color::Rgb(32, 40, 54),
        panel_bg() == Color::Rgb(13, 17, 23),
        hover_bg() == Color::Rgb(42, 54, 71),
        active_bg() == Color::Rgb(24, 64, 92),
        search_bg() == Color::Rgb(104, 76, 28),
        search_active_bg() == Color::Rgb(222, 184, 75),
        highlight_text_bg() == Color::Rgb(43, 54, 79),
        highlight_read_bg() == Color::Rgb(28, 71, 58),
        highlight_write_bg() == Color::Rgb(91, 56, 38),
        error_bg() == Color::Rgb(61, 27, 34),
        warning_bg() == Color::Rgb(58, 48, 24),
        info_bg() == Color::Rgb(29, 44, 61),
        border_color() == Color::Rgb(75, 89, 110),
        accent() == Color::Rgb(89, 169, 255),
        text_color() == Color::Rgb(205, 213, 224),
        muted() == Color::Rgb(117, 132, 154),
        tab_bg() == Color::Rgb(18, 24, 33),
        split_tab_bg() == Color::Rgb(38, 50, 62),
        split_pane_bg() == Color::Rgb(15, 23, 32),
        exited_fg() == Color::Rgb(248, 113, 113),
{
}

/// The panel that takes the keys has a blue border, and every other one a gray border;
/// text stands in light gray on the dark panels, and in a darker gray where it stands
/// back.
pub proof fn panels_with_the_keys_stand_out(focused: bool)
    ensures
        border_style(focused).fg == Some(
            if focused {
                Color::Rgb(89, 169, 255)
            } else {
                Color::Rgb(75, 89, 110)
            },
        ),
        border_style(focused).bg is None && !border_style(focused).bold,
        panel_style().fg is None && panel_style().bg == Some(Color::Rgb(13, 17, 23)),
        body_style().fg == Some(Color::Rgb(205, 213, 224)),
        body_style().bg == panel_style().bg,
        muted_style().fg == Some(Color::Rgb(117, 132, 154)),
        muted_style().bg == panel_style().bg,
        bar_style().fg == body_style().fg && bar_style().bg == Some(Color::Rgb(32, 40, 54)),
        tab_bar_style().fg == body_style().fg && tab_bar_style().bg == Some(Color::Rgb(18, 24, 33)),
        cursor_style().fg == Some(Color::Black),
        cursor_style().bg == Some(Color::Rgb(89, 169, 255)),
{
}

/// A problem is marked by a letter in bold and in the color of its severity, on a ground
/// that its line is shown on as well.
pub proof fn problems_are_marked_by_letter_and_color(severity: ProblemSeverity)
    ensures
        ({
            let gutter = problem_gutter_style(severity);
            &&& gutter.bold
            &&& problem_line_style(severity).fg is None
            &&& problem_line_style(severity).bg == gutter.bg
            &&& severity is Error ==> gutter.fg == Some(Color::LightRed) && gutter.bg == Some(
                Color::Rgb(61, 27, 34),
            ) && marker_text(severity) == seq!['E']
            &&& severity is Warning ==> gutter.fg == Some(Color::LightYellow) && gutter.bg == Some(
                Color::Rgb(58, 48, 24),
            ) && marker_text(severity) == seq!['W']
            &&& severity is Note || severity is Help ==> gutter.fg == Some(Color::LightCyan)
                && gutter.bg == Some(Color::Rgb(29, 44, 61)) && marker_text(severity) == seq!['i']
            &&& severity is Problem ==> gutter.fg == Some(Color::White) && gutter.bg == Some(
                Color::Rgb(29, 44, 61),
            ) && marker_text(severity) == seq!['!']
        }),
{
    reveal_strlit("E");
    reveal_strlit("W");
    reveal_strlit("i");
    reveal_strlit("!");
    assert("E"@ =~= seq!['E']);
    assert("W"@ =~= seq!['W']);
    assert("i"@ =~= seq!['i']);
    assert("!"@ =~= seq!['!']);
}

/// What is selected, found or linked in a terminal changes its colors, a link is also
/// underlined, and all else stays as the program set it.
pub proof fn marked_terminal_text_keeps_its_other_parts(style: Style, active: bool)
    ensures
        terminal_selection_style(style) == (Style {
            fg: Some(Color::Black),
            bg: Some(Color::Rgb(89, 169, 255)),
            ..style
        }),
        terminal_search_style(style, true) == (Style {
            fg: Some(Color::Black),
            bg: Some(Color::Rgb(222, 184, 75)),
            ..style
        }),
        terminal_search_style(style, false) == (Style {
            fg: Some(Color::White),
            bg: Some(Color::Rgb(104, 76, 28)),
            ..style
        }),
        terminal_link_style(style) == (Style {
            fg: Some(Color::Rgb(89, 169, 255)),
            underlined: true,
            ..style
        }),
{
}

} // verus!
