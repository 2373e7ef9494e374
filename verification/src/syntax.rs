//! Syntax highlighting.

use vstd::prelude::*;

use crate::path;
use crate::path::FsPath;
use crate::path::PartView;
use crate::spans;
use crate::text;
use crate::ui::line;
use crate::ui::line::Span;
use crate::ui::style;
use crate::ui::style::Color;
use crate::ui::style::Style;

use ::syntect::easy::HighlightLines;
use ::syntect::highlighting::Theme;
use ::syntect::highlighting::ThemeSet;
use ::syntect::parsing::SyntaxReference;
use ::syntect::parsing::SyntaxSet;

verus! {

/// A set of syntaxes of the `syntect` crate.
#[verifier::external_type_specification]
#[verifier::external_body]
pub struct ExSyntaxSet(SyntaxSet);

/// A syntax of the `syntect` crate.
#[verifier::external_type_specification]
#[verifier::external_body]
pub struct ExSyntaxReference(SyntaxReference);

/// A color theme of the `syntect` crate.
#[verifier::external_type_specification]
#[verifier::external_body]
pub struct ExTheme(Theme);

/// The state of the `syntect` crate between the lines of a text.
#[verifier::external_type_specification]
#[verifier::external_body]
pub struct ExHighlightLines<'a>(HighlightLines<'a>);

/// A piece of a line in its color.
pub struct ColoredText {
    pub text: String,
    pub color: (u8, u8, u8),
}

pub open spec fn colored_view(pieces: Seq<ColoredText>) -> Seq<(Seq<char>, (u8, u8, u8))> {
    Seq::new(pieces.len(), |i: int| (pieces[i].text@, pieces[i].color))
}

/// Whether a syntax belongs to a set.
pub uninterp spec fn in_set(set: SyntaxSet, syntax: SyntaxReference) -> bool;

/// The syntax that `SyntaxSet::find_syntax_by_extension` finds.
pub uninterp spec fn syntax_of_extension(set: SyntaxSet, extension: Seq<char>) -> Option<
    SyntaxReference,
>;

/// The syntax that `SyntaxSet::find_syntax_by_first_line` finds.
pub uninterp spec fn syntax_of_first_line(set: SyntaxSet, line: Seq<char>) -> Option<
    SyntaxReference,
>;

/// The syntax that `SyntaxSet::find_syntax_plain_text` finds, which belongs to
/// the set where the set has one.
pub uninterp spec fn plain_syntax(set: SyntaxSet) -> SyntaxReference;

/// What a highlighter was made for, and the lines that it has read.
pub struct Progress {
    pub set: SyntaxSet,
    pub syntax: SyntaxReference,
    pub theme: Theme,
    pub read: Seq<Seq<char>>,
}

pub uninterp spec fn progress(highlighter: HighlightLines<'_>) -> Progress;

/// What `HighlightLines::highlight_line` gives for the last of the lines that
/// were read: pieces of the line in their colors, or an error.
pub uninterp spec fn line_colors(progress: Progress) -> Option<Seq<(Seq<char>, (u8, u8, u8))>>;

/// Calls `SyntaxSet::load_defaults_newlines`: a set with a syntax for plain
/// text.
#[verifier::external_body]
fn load_syntaxes() -> (set: SyntaxSet)
    ensures
        in_set(set, plain_syntax(set)),
{
    SyntaxSet::load_defaults_newlines()
}

/// The theme of a name that `ThemeSet::load_defaults` holds.
pub uninterp spec fn default_theme(name: Seq<char>) -> Option<Theme>;

/// Calls `ThemeSet::load_defaults` and takes the theme of a name: a function of
/// the name. There is a theme of the name `base16-ocean.dark`.
#[verifier::external_body]
fn load_theme(name: &str) -> (theme: Option<Theme>)
    ensures
        theme == default_theme(name@),
        name@ == "base16-ocean.dark"@ ==> theme is Some,
{
    ThemeSet::load_defaults().themes.remove(name)
}

/// Calls `SyntaxSet::find_syntax_by_extension`: a syntax of the set, a function
/// of the set and the extension.
#[verifier::external_body]
fn find_by_extension<'a>(set: &'a SyntaxSet, extension: &str) -> (found: Option<
    &'a SyntaxReference,
>)
    ensures
        match found {
            Some(syntax) => syntax_of_extension(*set, extension@) == Some(*syntax) && in_set(
                *set,
                *syntax,
            ),
            None => syntax_of_extension(*set, extension@) is None,
        },
{
    set.find_syntax_by_extension(extension)
}

/// Calls `SyntaxSet::find_syntax_by_first_line`: a syntax of the set, a function
/// of the set and the line.
#[verifier::external_body]
fn find_by_first_line<'a>(set: &'a SyntaxSet, line: &str) -> (found: Option<&'a SyntaxReference>)
    ensures
        match found {
            Some(syntax) => syntax_of_first_line(*set, line@) == Some(*syntax) && in_set(
                *set,
                *syntax,
            ),
            None => syntax_of_first_line(*set, line@) is None,
        },
{
    set.find_syntax_by_first_line(line)
}

/// Calls `SyntaxSet::find_syntax_plain_text`, which panics where the set has no
/// syntax for plain text.
#[verifier::external_body]
fn find_plain_text(set: &SyntaxSet) -> (syntax: &SyntaxReference)
    requires
        in_set(*set, plain_syntax(*set)),
    ensures
        *syntax == plain_syntax(*set),
{
    set.find_syntax_plain_text()
}

/// Calls `HighlightLines::new`: a highlighter for a syntax of a set that has
/// read nothing.
#[verifier::external_body]
fn start_highlighting<'a>(set: &SyntaxSet, syntax: &SyntaxReference, theme: &'a Theme) -> (lines:
    HighlightLines<'a>)
    requires
        in_set(*set, *syntax),
    ensures
        progress(lines) == (Progress {
            set: *set,
            syntax: *syntax,
            theme: *theme,
            read: Seq::empty(),
        }),
{
    HighlightLines::new(syntax, theme)
}

/// Calls `HighlightLines::highlight_line` with the set that the highlighter was
/// made for. The colors are a function of what it was made for and of the lines
/// read so far; the pieces, taken together, are the line or the start of it. That
/// they are all of the line is not said: they end early where a syntax restores
/// scopes that were never cleared.
#[verifier::external_body]
fn highlight_line(lines: &mut HighlightLines<'_>, line: &str, set: &SyntaxSet) -> (pieces: Option<
    Vec<ColoredText>,
>)
    requires
        progress(*old(lines)).set == *set,
    ensures
        progress(*final(lines)) == (Progress {
            read: progress(*old(lines)).read.push(line@),
            ..progress(*old(lines))
        }),
        match pieces {
            Some(pieces) => line_colors(progress(*final(lines))) == Some(colored_view(pieces@))
                && spans::plain(colored_view(pieces@)).is_prefix_of(line@),
            None => line_colors(progress(*final(lines))) is None,
        },
{
    let ranges = lines.highlight_line(line, set).ok()?;
    let pieces = ranges.into_iter().map(|(style, text)| ColoredText {
        text: text.to_owned(),
        color: (style.foreground.r, style.foreground.g, style.foreground.b),
    });
    Some(pieces.collect())
}

/// Pieces of a line as spans in their colors.
pub open spec fn painted(pieces: Seq<(Seq<char>, (u8, u8, u8))>) -> Seq<(Seq<char>, Style)> {
    Seq::new(
        pieces.len(),
        |i: int|
            (
                pieces[i].0,
                style::plain().fg(Color::Rgb(pieces[i].1.0, pieces[i].1.1, pieces[i].1.2)),
            ),
    )
}

/// The spans of a line: its pieces in their colors, or the plain line where it
/// could not be highlighted.
pub open spec fn painted_line(
    pieces: Option<Seq<(Seq<char>, (u8, u8, u8))>>,
    source: Seq<char>,
) -> Seq<(Seq<char>, Style)> {
    match pieces {
        Some(pieces) => painted(pieces),
        None => line::no_spans().push((source, style::plain())),
    }
}

/// The spans of a line that was highlighted, or could not be highlighted.
pub fn line_spans(pieces: &Option<Vec<ColoredText>>, source: &str) -> (out: Vec<Span>)
    ensures
        line::spans_view(out@) == painted_line(
            match *pieces {
                Some(pieces) => Some(colored_view(pieces@)),
                None => None,
            },
            source@,
        ),
{
    let mut out: Vec<Span> = Vec::new();
    proof {
        assert(line::spans_view(out@) =~= line::no_spans());
    }
    match pieces {
        Some(pieces) => {
            for i in 0..pieces.len()
                invariant
                    line::spans_view(out@) == painted(colored_view(pieces@)).take(i as int),
            {
                let (r, g, b) = pieces[i].color;
                line::push_span(&mut out, &pieces[i].text, style::plain().fg(Color::Rgb(r, g, b)));
                proof {
                    assert(line::spans_view(out@) =~= painted(colored_view(pieces@)).take(i + 1));
                }
            }
            proof {
                assert(line::spans_view(out@) =~= painted(colored_view(pieces@)));
            }
        },
        None => {
            line::push_span(&mut out, source, style::plain());
        },
    }
    out
}

proof fn lemma_painted_text(pieces: Seq<(Seq<char>, (u8, u8, u8))>)
    ensures
        spans::plain(painted(pieces)) == spans::plain(pieces),
    decreases pieces.len(),
{
    if pieces.len() > 0 {
        lemma_painted_text(pieces.drop_last());
        assert(painted(pieces).drop_last() =~= painted(pieces.drop_last()));
    } else {
        assert(spans::plain(painted(pieces)) =~= spans::plain(pieces));
    }
}

/// A part of a file name as text; nothing where there is none or it is no text.
pub open spec fn name_text(bytes: Option<Seq<u8>>) -> Seq<char> {
    match bytes {
        Some(bytes) => match path::utf8(bytes) {
            Some(text) => text,
            None => Seq::empty(),
        },
        None => Seq::empty(),
    }
}

fn text_of_name(bytes: Option<Vec<u8>>) -> (out: String)
    ensures
        out@ == name_text(
            match bytes {
                Some(bytes) => Some(bytes@),
                None => None,
            },
        ),
{
    broadcast use vstd::utf8::group_utf8_lib;

    let text = match bytes {
        Some(bytes) => text::utf8_text(bytes),
        None => None,
    };
    match text {
        Some(text) => text,
        None => String::new(),
    }
}

/// The syntax that a set has for the name of a file: for the whole name taken as
/// an extension, or else for its extension.
pub open spec fn syntax_of_name(set: SyntaxSet, path: Seq<PartView>) -> Option<SyntaxReference> {
    match syntax_of_extension(set, name_text(path::last_name(path))) {
        Some(syntax) => Some(syntax),
        None => syntax_of_extension(set, name_text(path::last_extension(path))),
    }
}

/// The syntax that a set has for a file: the one for its name, or else for its
/// first line, where that can be read, or else the one for plain text.
pub open spec fn syntax_of_file(
    set: SyntaxSet,
    path: Seq<PartView>,
    first_line: Option<Seq<char>>,
) -> SyntaxReference {
    match syntax_of_name(set, path) {
        Some(syntax) => syntax,
        None => match first_line {
            Some(first) => match syntax_of_first_line(set, first) {
                Some(syntax) => syntax,
                None => plain_syntax(set),
            },
            None => plain_syntax(set),
        },
    }
}

/// How many of so many lines stand from `start` to `end`.
pub open spec fn lines_between(len: nat, start: nat, end: nat) -> nat {
    let last = if end < len {
        end
    } else {
        len
    };
    if start < last {
        (last - start) as nat
    } else {
        0
    }
}

/// The spans of several lines.
pub open spec fn spans_of_lines(lines: Seq<Vec<Span>>) -> Seq<Seq<(Seq<char>, Style)>> {
    Seq::new(lines.len(), |k: int| line::spans_view(lines[k]@))
}

/// Highlights source text.
pub struct SyntaxHighlighter {
    syntaxes: SyntaxSet,
    theme: Theme,
}

impl SyntaxHighlighter {
    pub closed spec fn syntaxes(&self) -> SyntaxSet {
        self.syntaxes
    }

    pub closed spec fn theme(&self) -> Theme {
        self.theme
    }

    /// There is a syntax for plain text.
    pub open spec fn wf(&self) -> bool {
        in_set(self.syntaxes(), plain_syntax(self.syntaxes()))
    }

    /// The spans of line `i` of a text.
    pub open spec fn shown_line(
        &self,
        syntax: SyntaxReference,
        lines: Seq<Seq<char>>,
        i: int,
    ) -> Seq<(Seq<char>, Style)> {
        painted_line(
            line_colors(
                Progress {
                    set: self.syntaxes(),
                    syntax,
                    theme: self.theme(),
                    read: lines.take(i + 1),
                },
            ),
            lines[i],
        )
    }

    /// The spans of the lines of a text from `start` to `end`.
    pub open spec fn shown_lines(
        &self,
        syntax: SyntaxReference,
        lines: Seq<Seq<char>>,
        start: nat,
        end: nat,
    ) -> Seq<Seq<(Seq<char>, Style)>> {
        Seq::new(
            lines_between(lines.len(), start, end),
            |k: int| self.shown_line(syntax, lines, start + k),
        )
    }

    pub fn new() -> (highlighter: SyntaxHighlighter)
        ensures
            highlighter.wf(),
            default_theme("base16-ocean.dark"@) == Some(highlighter.theme()),
    {
        let theme = load_theme("base16-ocean.dark").unwrap();
        SyntaxHighlighter { syntaxes: load_syntaxes(), theme }
    }

    fn named_syntax(&self, path: &FsPath) -> (found: Option<&SyntaxReference>)
        ensures
            match found {
                Some(syntax) => syntax_of_name(self.syntaxes(), path@) == Some(*syntax) && in_set(
                    self.syntaxes(),
                    *syntax,
                ),
                None => syntax_of_name(self.syntaxes(), path@) is None,
            },
    {
        let name = text_of_name(path.file_name());
        match find_by_extension(&self.syntaxes, &name) {
            Some(syntax) => Some(syntax),
            None => {
                let extension = text_of_name(path.extension());
                find_by_extension(&self.syntaxes, &extension)
            },
        }
    }

    /// Whether the first line of a file decides on its syntax.
    pub fn needs_first_line(&self, path: &FsPath) -> (yes: bool)
        ensures
            yes == (syntax_of_name(self.syntaxes(), path@) is None),
    {
        self.named_syntax(path).is_none()
    }

    fn file_syntax(&self, path: &FsPath, first_line: &Option<String>) -> (syntax: &SyntaxReference)
        requires
            self.wf(),
        ensures
            *syntax == syntax_of_file(self.syntaxes(), path@, text::maybe(*first_line)),
            in_set(self.syntaxes(), *syntax),
    {
        if let Some(syntax) = self.named_syntax(path) {
            return syntax;
        }
        if let Some(first) = first_line {
            if let Some(syntax) = find_by_first_line(&self.syntaxes, first) {
                return syntax;
            }
        }
        find_plain_text(&self.syntaxes)
    }

    /// The lines of a text from `start` to `end` in their colors. The colors of a
    /// line depend on all lines before it.
    pub fn highlight_visible(
        &self,
        path: &FsPath,
        first_line: &Option<String>,
        lines: &Vec<String>,
        start: usize,
        end: usize,
    ) -> (out: Vec<Vec<Span>>)
        requires
            self.wf(),
        ensures
            spans_of_lines(out@) == self.shown_lines(
                syntax_of_file(self.syntaxes(), path@, text::maybe(*first_line)),
                text::texts(lines@),
                start as nat,
                end as nat,
            ),
            forall|k: int|
                0 <= k < out@.len() ==> spans::plain(
                    line::spans_view((#[trigger] out@[k])@),
                ).is_prefix_of(lines@[start + k]@),
            forall|k: int|
                0 <= k < out@.len() ==> line::total_len(
                    line::spans_view((#[trigger] out@[k])@),
                ) <= usize::MAX,
    {
        let syntax = self.file_syntax(path, first_line);
        let mut highlighter = start_highlighting(&self.syntaxes, syntax, &self.theme);
        let last: usize = if end < lines.len() {
            end
        } else {
            lines.len()
        };
        let ghost all = text::texts(lines@);
        let mut out: Vec<Vec<Span>> = Vec::new();
        proof {
            assert(all.take(0) =~= Seq::<Seq<char>>::empty());
        }
        for i in 0..last
            invariant
                last <= lines@.len(),
                all == text::texts(lines@),
                *syntax == syntax_of_file(self.syntaxes(), path@, text::maybe(*first_line)),
                progress(highlighter) == (Progress {
                    set: self.syntaxes(),
                    syntax: *syntax,
                    theme: self.theme(),
                    read: all.take(i as int),
                }),
                out@.len() == if start < i {
                    i - start
                } else {
                    0
                },
                forall|k: int|
                    0 <= k < out@.len() ==> line::spans_view((#[trigger] out@[k])@)
                        == self.shown_line(*syntax, all, start + k),
                forall|k: int|
                    0 <= k < out@.len() ==> spans::plain(
                        line::spans_view((#[trigger] out@[k])@),
                    ).is_prefix_of(lines@[start + k]@),
                forall|k: int|
                    0 <= k < out@.len() ==> line::total_len(
                        line::spans_view((#[trigger] out@[k])@),
                    ) <= usize::MAX,
        {
            let source = &lines[i];
            let pieces = highlight_line(&mut highlighter, source, &self.syntaxes);
            proof {
                assert(all.take(i as int).push(source@) =~= all.take(i + 1));
            }
            if i >= start {
                let spans = line_spans(&pieces, source);
                let len: usize = text::count(source);
                proof {
                    line::lemma_text_len(line::spans_view(spans@));
                    match pieces {
                        Some(pieces) => {
                            lemma_painted_text(colored_view(pieces@));
                        },
                        None => {
                            let plain = line::no_spans().push((source@, style::plain()));
                            assert(plain.drop_last() =~= line::no_spans());
                            assert(spans::plain(line::no_spans()) == Seq::<char>::empty());
                            assert(spans::plain(plain) =~= source@);
                        },
                    }
                    assert(line::total_len(line::spans_view(spans@)) <= len);
                }
                out.push(spans);
            }
        }
        proof {
            assert(spans_of_lines(out@) =~= self.shown_lines(
                *syntax,
                all,
                start as nat,
                end as nat,
            ));
        }
        out
    }
}

/// The spans of a line do not depend on the window through which it is seen: a
/// window shows as many lines as there are in it, and each of them as the window
/// from the first line on does, and as any other window does that the line lies in.
pub proof fn lines_look_the_same_in_every_window(
    highlighter: SyntaxHighlighter,
    syntax: SyntaxReference,
    lines: Seq<Seq<char>>,
    start: nat,
    end: nat,
    other_start: nat,
    other_end: nat,
)
    ensures
        ({
            let shown = highlighter.shown_lines(syntax, lines, start, end);
            let from_first = highlighter.shown_lines(syntax, lines, 0, end);
            let other = highlighter.shown_lines(syntax, lines, other_start, other_end);
            &&& shown.len() == lines_between(lines.len(), start, end)
            &&& forall|i: int|
                0 <= i < shown.len() ==> start + i < from_first.len() && (#[trigger] shown[i])
                    == from_first[start + i]
            &&& forall|i: int, j: int|
                0 <= i < shown.len() && 0 <= j < other.len() && start + i == other_start + j
                    ==> #[trigger] shown[i] == #[trigger] other[j]
        }),
{
}

/// The pieces of a highlighted line are shown one after the other, each in its own color
/// and nothing else; a line that could not be highlighted is shown as it is.
pub proof fn pieces_are_shown_in_their_colors(
    pieces: Seq<(Seq<char>, (u8, u8, u8))>,
    source: Seq<char>,
    i: int,
)
    requires
        0 <= i < pieces.len(),
    ensures
        ({
            let shown = painted_line(Some(pieces), source);
            let (r, g, b) = pieces[i].1;
            &&& shown.len() == pieces.len()
            &&& shown[i].0 == pieces[i].0
            &&& shown[i].1 == (Style {
                fg: Some(Color::Rgb(r, g, b)),
                bg: None,
                bold: false,
                dim: false,
                italic: false,
                underlined: false,
            })
        }),
        ({
            let plain = painted_line(None, source);
            &&& plain.len() == 1
            &&& plain[0].0 == source
            &&& plain[0].1.fg is None && plain[0].1.bg is None
        }),
{
}

/// The syntax of a file goes by its whole name, or else by its extension, or else by its
/// first line, or else it is that of plain text.
pub proof fn syntaxes_go_by_name_before_contents(
    set: SyntaxSet,
    path: Seq<PartView>,
    name: Seq<char>,
    first_line: Option<Seq<char>>,
)
    requires
        path.len() > 0,
        path.last() == PartView::Normal(vstd::utf8::encode_utf8(name)),
    ensures
        ({
            let found = syntax_of_file(set, path, first_line);
            let by_name = syntax_of_extension(set, name);
            let by_extension = syntax_of_extension(set, name_text(path::last_extension(path)));
            &&& by_name is Some ==> found == by_name->0
            &&& by_name is None && by_extension is Some ==> found == by_extension->0
            &&& by_name is None && by_extension is None && first_line is Some
                && syntax_of_first_line(set, first_line->0) is Some ==> found
                == syntax_of_first_line(set, first_line->0)->0
            &&& by_name is None && by_extension is None && (first_line is None
                || syntax_of_first_line(set, first_line->0) is None) ==> found == plain_syntax(set)
        }),
{
    broadcast use vstd::utf8::group_utf8_lib;

    assert(path::utf8(vstd::utf8::encode_utf8(name)) == Some(name));
}

} // verus!
